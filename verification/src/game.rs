//! The world and its per-frame orchestration: entity collections, spawn
//! deadlines, collision passes, scoring, lives, and the death reset.
//!
//! One call to `tick_game` is one atomic frame. Rendering, input polling and
//! score persistence live outside the core; the world only hands out what to
//! draw and what to save.

use vstd::prelude::*;
use crate::alien::{alien_wf, Alien};
use crate::asteroid::{asteroid_wf, Asteroid};
use crate::black_hole::{black_hole_wf, BlackHole};
use crate::bullet::{bullet_wf, Bullet};
use crate::constants::{
    ASTEROID_SCORE_PER_RADIUS, ASTEROID_SPAWN_RADIUS_MAX, ASTEROID_SPAWN_RADIUS_MIN,
    ALIEN_CURRENT_POINTS, ALIEN_FUTURE_POINTS, ALIEN_RANDOM_POINTS, BLACK_HOLE_MIN_POINTS,
    MAX_ALIENS, MAX_DT, MAX_FIELD, MAX_NOW, POINTS_PER_LIFE, START_LIVES,
};
use crate::particle::{particle_wf, Particle};
use crate::player::{player_wf, Player};
pub use crate::player::Key;
use crate::rng;
use crate::sched;
use crate::wrap;

verus! {

/// Where the program is: the title screen or a running game.
#[derive(Clone, Copy, PartialEq, Eq, Structural)]
pub enum GameState {
    MainMenu,
    InGame,
}

pub struct Game {
    /// Field size, in mu.
    pub w: i64,
    pub h: i64,
    /// One-shot-per-press firing latch.
    pub space_released: bool,
    pub next_asteroid_spawn: u64,
    pub next_alien_spawn: u64,
    pub next_black_hole_spawn: u64,
    pub lives: u32,
    /// The score at which the next extra life is awarded.
    pub next_life_points: u64,
    pub score: u64,
    /// The persisted high score.
    pub pb: u64,
    pub player: Player,
    pub particles: Vec<Particle>,
    pub bullets: Vec<Bullet>,
    pub asteroids: Vec<Asteroid>,
    pub aliens: Vec<Alien>,
    pub black_holes: Vec<BlackHole>,
    pub state: GameState,
    pub paused: bool,
}

/// A bullet after it has hit something this frame: only the spent flag set.
pub open spec fn spent_bullet(b: Bullet) -> Bullet {
    Bullet { to_die: true, ..b }
}

/// The scoring rule: `pts` points are added (saturating at the integer
/// limit), and when the score passes the extra-life threshold a life is
/// granted and the threshold advances, where the counters permit.
pub open spec fn award_rel(g0: Game, g1: Game, pts: int) -> bool {
    &&& g1.score == (if g0.score + pts <= u64::MAX {
        g0.score + pts
    } else {
        g0.score as int
    })
    &&& (if g1.score > g0.next_life_points && g0.next_life_points + POINTS_PER_LIFE <= u64::MAX
        && g0.lives + 1 <= u32::MAX {
        g1.lives == g0.lives + 1 && g1.next_life_points == g0.next_life_points + POINTS_PER_LIFE
    } else {
        g1.lives == g0.lives && g1.next_life_points == g0.next_life_points
    })
}

pub open spec fn game_wf(g: Game) -> bool {
    &&& 1 <= g.w <= MAX_FIELD
    &&& 1 <= g.h <= MAX_FIELD
    &&& player_wf(g.player, g.w as int, g.h as int)
    &&& forall|i: int|
        0 <= i < g.particles@.len() ==> particle_wf(#[trigger] g.particles@[i], g.w as int, g.h as int)
    &&& forall|i: int|
        0 <= i < g.bullets@.len() ==> bullet_wf(#[trigger] g.bullets@[i], g.w as int, g.h as int)
    &&& forall|i: int|
        0 <= i < g.asteroids@.len() ==> asteroid_wf(#[trigger] g.asteroids@[i], g.w as int, g.h as int)
    &&& forall|i: int|
        0 <= i < g.aliens@.len() ==> alien_wf(#[trigger] g.aliens@[i], g.w as int, g.h as int)
    &&& forall|i: int|
        0 <= i < g.black_holes@.len() ==> black_hole_wf(
            #[trigger] g.black_holes@[i],
            g.w as int,
            g.h as int,
        )
}

/// A particle one frame later: position integrated and wrapped.
pub open spec fn particle_ticked(p: Particle, dt: int, w: int, h: int) -> Particle {
    Particle {
        x: wrap::wrap_val(p.x + p.vx * dt, w) as i64,
        y: wrap::wrap_val(p.y + p.vy * dt, h) as i64,
        ..p
    }
}

/// The particles that survive the instant `now`, in order, each advanced
/// one frame; the expired ones are gone.
pub open spec fn live_ticked(s: Seq<Particle>, dt: int, now: u64, w: int, h: int) -> Seq<Particle>
    decreases s.len(),
{
    if s.len() == 0 {
        Seq::empty()
    } else {
        let rest = live_ticked(s.drop_last(), dt, now, w, h);
        if s.last().death >= now {
            rest.push(particle_ticked(s.last(), dt, w, h))
        } else {
            rest
        }
    }
}

/// The bullets still flying at `now`: alive and unspent, in order.
pub open spec fn kept_bullets(s: Seq<Bullet>, now: u64) -> Seq<Bullet>
    decreases s.len(),
{
    if s.len() == 0 {
        Seq::empty()
    } else {
        let rest = kept_bullets(s.drop_last(), now);
        if s.last().death >= now && !s.last().to_die {
            rest.push(s.last())
        } else {
            rest
        }
    }
}

/// One bullet kinematically advanced: position integrated and wrapped, the
/// trail stamp per the emission rule, its particle queue drained into the
/// world.
pub open spec fn bullet_kine(b0: Bullet, b1: Bullet, dt: u64, now: u64, w: int, h: int) -> bool {
    &&& b1.x == wrap::wrap_val(b0.x + b0.vx * dt, w)
    &&& b1.y == wrap::wrap_val(b0.y + b0.vy * dt, h)
    &&& b1.vx == b0.vx
    &&& b1.vy == b0.vy
    &&& b1.death == b0.death
    &&& b1.to_die == b0.to_die
    &&& b1.is_player_shot == b0.is_player_shot
    &&& b1.last_particle == crate::particle::emit_stamp(
        crate::constants::TRAIL_PPS,
        dt,
        b0.last_particle,
        now,
    )
    &&& b1.particles_to_spawn@.len() == 0
}

/// The player one frame later, per the ship's tick rule, with its exhaust
/// queue drained into the world.
pub open spec fn player_moved(p0: Player, p1: Player, dt: u64, now: u64, w: int, h: int) -> bool {
    &&& p1.x == wrap::wrap_val(p0.x + p0.vx * dt, w)
    &&& p1.y == wrap::wrap_val(p0.y + p0.vy * dt, h)
    &&& p1.vx == crate::mathx::clamp_val(
        crate::player::drag_val(
            p0.vx + if p0.up {
                crate::player::thrust_dv_x(p0.angle as int, dt as int)
            } else {
                0int
            },
            dt as int,
        ),
        -crate::constants::MAX_SPEED as int,
        crate::constants::MAX_SPEED as int,
    )
    &&& p1.vy == crate::mathx::clamp_val(
        crate::player::drag_val(
            p0.vy + if p0.up {
                crate::player::thrust_dv_y(p0.angle as int, dt as int)
            } else {
                0int
            },
            dt as int,
        ),
        -crate::constants::MAX_SPEED as int,
        crate::constants::MAX_SPEED as int,
    )
    &&& p1.angle == crate::player::turned_angle(p0, dt as int)
    &&& p1.left == p0.left
    &&& p1.right == p0.right
    &&& p1.up == p0.up
    &&& p1.last_thrust_particle == if p0.up {
        crate::particle::emit_stamp(crate::constants::THRUST_PPS, dt, p0.last_thrust_particle, now)
    } else {
        p0.last_thrust_particle as int
    }
    &&& p1.particles_to_spawn@.len() == 0
}

/// Score bookkeeping carried across a pass: points only accrue.
pub open spec fn score_frame(g0: Game, g1: Game) -> bool {
    &&& g1.score >= g0.score
    &&& g1.lives >= g0.lives
    &&& g1.pb == g0.pb
}

/// The fields a phase of the frame leaves alone, beside the collections it
/// works on.
pub open spec fn same_frame(g0: Game, g1: Game) -> bool {
    &&& g1.w == g0.w
    &&& g1.h == g0.h
    &&& g1.state == g0.state
    &&& g1.paused == g0.paused
    &&& g1.space_released == g0.space_released
    &&& g1.next_asteroid_spawn == g0.next_asteroid_spawn
    &&& g1.next_alien_spawn == g0.next_alien_spawn
    &&& g1.next_black_hole_spawn == g0.next_black_hole_spawn
}

/// The hazard-spawn phase: an asteroid placed on the field whenever its
/// deadline passed, an alien when due, unlocked and under the cap, and a
/// gravity well when due and the score allows wells; exactly the deadlines
/// of successful spawns are recomputed from the current score.
pub open spec fn spawn_rel(g0: Game, g1: Game, now: u64) -> bool {
    &&& game_wf(g1)
    &&& g1.w == g0.w
    &&& g1.h == g0.h
    &&& g1.state == g0.state
    &&& g1.paused == g0.paused
    &&& g1.space_released == g0.space_released
    &&& g1.score == g0.score
    &&& g1.lives == g0.lives
    &&& g1.pb == g0.pb
    &&& g1.next_life_points == g0.next_life_points
    &&& g1.player == g0.player
    &&& g1.bullets == g0.bullets
    &&& g1.particles == g0.particles
    &&& (now > g0.next_asteroid_spawn ==> g1.asteroids@.len() == g0.asteroids@.len() + 1
        && g1.next_asteroid_spawn == sched::next_due(sched::asteroid_tiers(), g0.score, now))
    &&& (!(now > g0.next_asteroid_spawn) ==> g1.asteroids == g0.asteroids
        && g1.next_asteroid_spawn == g0.next_asteroid_spawn)
    &&& (now > g0.next_alien_spawn && g0.aliens@.len() < MAX_ALIENS && g0.score
        >= crate::constants::ALIEN_RANDOM_MIN_POINTS ==> g1.aliens@.len() == g0.aliens@.len() + 1
        && g1.next_alien_spawn == sched::next_due(sched::alien_tiers(), g0.score, now))
    &&& (!(now > g0.next_alien_spawn && g0.aliens@.len() < MAX_ALIENS && g0.score
        >= crate::constants::ALIEN_RANDOM_MIN_POINTS) ==> g1.aliens == g0.aliens
        && g1.next_alien_spawn == g0.next_alien_spawn)
    &&& (now > g0.next_black_hole_spawn && g0.score >= BLACK_HOLE_MIN_POINTS
        ==> g1.black_holes@.len() == g0.black_holes@.len() + 1 && g1.next_black_hole_spawn
        == sched::next_due(sched::black_hole_tiers(), g0.score, now))
    &&& (!(now > g0.next_black_hole_spawn && g0.score >= BLACK_HOLE_MIN_POINTS)
        ==> g1.black_holes == g0.black_holes && g1.next_black_hole_spawn
        == g0.next_black_hole_spawn)
}

/// The movement phase: the player follows its tick rule; its exhaust joins
/// the particles, and the particles that survive advance, the rest expire.
pub open spec fn move_rel(g0: Game, g1: Game, dt: u64, now: u64) -> bool {
    &&& game_wf(g1)
    &&& same_frame(g0, g1)
    &&& g1.score == g0.score
    &&& g1.lives == g0.lives
    &&& g1.pb == g0.pb
    &&& g1.next_life_points == g0.next_life_points
    &&& g1.bullets == g0.bullets
    &&& g1.asteroids == g0.asteroids
    &&& g1.aliens == g0.aliens
    &&& g1.black_holes == g0.black_holes
    &&& player_moved(g0.player, g1.player, dt, now, g0.w as int, g0.h as int)
    &&& exists|em: Seq<Particle>|
        #![trigger live_ticked(g0.particles@ + g0.player.particles_to_spawn@ + em, dt as int, now, g0.w as int, g0.h as int)]
        em.len() == (if g0.player.up {
            crate::particle::emit_count(
                crate::constants::THRUST_PPS,
                dt,
                g0.player.last_thrust_particle,
                now,
            )
        } else {
            0int
        }) && (forall|i: int|
            0 <= i < em.len() ==> particle_wf(#[trigger] em[i], g0.w as int, g0.h as int)
                && em[i].x == g1.player.x && em[i].y == g1.player.y
                && crate::player::thrust_exhaust(
                em[i].vx,
                em[i].vy,
                g0.player.vx,
                g0.player.vy,
                g0.player.angle,
            )) && g1.particles@ == live_ticked(
            g0.particles@ + g0.player.particles_to_spawn@ + em,
            dt as int,
            now,
            g0.w as int,
            g0.h as int,
        )
}

/// The bullet-pruning phase: exactly the expired and spent bullets leave.
pub open spec fn prune_rel(g0: Game, g1: Game, now: u64) -> bool {
    &&& game_wf(g1)
    &&& same_frame(g0, g1)
    &&& g1.score == g0.score
    &&& g1.lives == g0.lives
    &&& g1.pb == g0.pb
    &&& g1.next_life_points == g0.next_life_points
    &&& g1.player == g0.player
    &&& g1.particles == g0.particles
    &&& g1.asteroids == g0.asteroids
    &&& g1.aliens == g0.aliens
    &&& g1.black_holes == g0.black_holes
    &&& g1.bullets@ == kept_bullets(g0.bullets@, now)
}

/// The bullet-movement phase: each bullet advances in place; the trail
/// particles they emitted join the world's particles.
pub open spec fn tickb_rel(g0: Game, g1: Game, dt: u64, now: u64) -> bool {
    &&& game_wf(g1)
    &&& same_frame(g0, g1)
    &&& g1.score == g0.score
    &&& g1.lives == g0.lives
    &&& g1.pb == g0.pb
    &&& g1.next_life_points == g0.next_life_points
    &&& g1.player == g0.player
    &&& g1.asteroids == g0.asteroids
    &&& g1.aliens == g0.aliens
    &&& g1.black_holes == g0.black_holes
    &&& g1.bullets@.len() == g0.bullets@.len()
    &&& forall|i: int|
        0 <= i < g0.bullets@.len() ==> bullet_kine(
            g0.bullets@[i],
            #[trigger] g1.bullets@[i],
            dt,
            now,
            g0.w as int,
            g0.h as int,
        )
    &&& g1.particles@.len() >= g0.particles@.len()
    &&& g1.particles@.subrange(0, g0.particles@.len() as int) == g0.particles@
    &&& forall|i: int|
        g0.particles@.len() <= i < g1.particles@.len() ==> particle_wf(
            #[trigger] g1.particles@[i],
            g0.w as int,
            g0.h as int,
        )
}

/// The segment a bullet sweeps during a tick of `dt` ms.
pub open spec fn trail_seq(b: Bullet, dt: u64) -> Seq<(i64, i64)> {
    seq![(b.x, b.y), ((b.x + b.vx * dt) as i64, (b.y + b.vy * dt) as i64)]
}

/// Whether the live bullet `b` sweeps through any of the nine wrapped
/// hitboxes of the asteroid `a` this tick.
pub open spec fn bullet_sweeps_asteroid(b: Bullet, a: Asteroid, w: int, h: int, dt: u64) -> bool {
    !b.to_die && exists|k: int|
        0 <= k < 9 && crate::geom::polys_intersect(
            #[trigger] Game::asteroid_hitbox_seq(a, w, h, k),
            trail_seq(b, dt),
        )
}

/// The first bullet from index `j` on that sweeps `a`, or -1.
pub open spec fn first_sweeper(
    bs: Seq<Bullet>,
    a: Asteroid,
    w: int,
    h: int,
    dt: u64,
    j: int,
) -> int
    decreases bs.len() - j when 0 <= j <= bs.len()
{
    if j < 0 || j >= bs.len() {
        -1
    } else if bullet_sweeps_asteroid(bs[j], a, w, h, dt) {
        j
    } else {
        first_sweeper(bs, a, w, h, dt, j + 1)
    }
}

/// A child of a split rock, as `check_split` produces them: half the
/// radius, at the parent's position, well formed.
pub open spec fn asteroid_child_ok(c: Asteroid, a: Asteroid) -> bool {
    &&& c.x == a.x
    &&& c.y == a.y
    &&& c.radius == a.radius / 2
    &&& c.shape@.len() >= 3
    &&& wrap::shape_ok(c.shape@)
    &&& -crate::constants::MAX_SPEED <= c.vx <= crate::constants::MAX_SPEED
    &&& -crate::constants::MAX_SPEED <= c.vy <= crate::constants::MAX_SPEED
}

/// One asteroid of the collision pass. If some live bullet sweeps it, the
/// first such bullet is spent, the rock scores `1_000_000 / radius` points
/// (with any extra life that earns), its children per the split rule go on
/// to the surviving set, and its explosion joins the particles; otherwise
/// the rock itself survives and nothing else changes. The asteroid
/// collection itself is rebuilt afterwards and unconstrained here.
pub open spec fn ast_step(
    gA: Game,
    gB: Game,
    a: Asteroid,
    fresh_kept: Seq<Asteroid>,
    dt: u64,
    now: u64,
) -> bool {
    let j = first_sweeper(gA.bullets@, a, gA.w as int, gA.h as int, dt, 0);
    &&& same_frame(gA, gB)
    &&& gB.player == gA.player
    &&& gB.aliens == gA.aliens
    &&& gB.black_holes == gA.black_holes
    &&& gB.pb == gA.pb
    &&& if j >= 0 {
        &&& gB.bullets@.len() == gA.bullets@.len()
        &&& gB.bullets@[j] == spent_bullet(gA.bullets@[j])
        &&& forall|m: int|
            0 <= m < gA.bullets@.len() && m != j ==> #[trigger] gB.bullets@[m] == gA.bullets@[m]
        &&& award_rel(gA, gB, ASTEROID_SCORE_PER_RADIUS as int / (a.radius as int))
        &&& (a.radius / 2 >= crate::constants::ASTEROID_MIN_RADIUS ==> fresh_kept.len() == 2
            && (forall|i: int| 0 <= i < fresh_kept.len() ==> asteroid_child_ok(#[trigger] fresh_kept[i], a)))
        &&& (!(a.radius / 2 >= crate::constants::ASTEROID_MIN_RADIUS) ==> fresh_kept.len() == 0)
        &&& gB.particles@.len() >= gA.particles@.len() + crate::constants::EXPLOSION_COUNT_MIN
        &&& gB.particles@.subrange(0, gA.particles@.len() as int) == gA.particles@
        &&& forall|i: int|
            gA.particles@.len() <= i < gB.particles@.len() ==> (#[trigger] gB.particles@[i]).x
                == a.x && gB.particles@[i].y == a.y && particle_wf(
                gB.particles@[i],
                gA.w as int,
                gA.h as int,
            )
    } else {
        &&& gB.bullets == gA.bullets
        &&& gB.particles == gA.particles
        &&& gB.score == gA.score
        &&& gB.lives == gA.lives
        &&& gB.next_life_points == gA.next_life_points
        &&& fresh_kept == seq![a]
    }
}

/// Names one link of a pass chain: the world before a step and the kept
/// entities around it. Serves as the matching anchor for the chain's
/// existential.
pub open spec fn pass_link<A>(gmid: Game, keep0: Seq<A>, fresh_kept: Seq<A>) -> bool {
    true
}

/// The collision pass over a prefix of the asteroids, in order: `gm` is the
/// world after it (its asteroid collection unconstrained) and `keep` the
/// rocks that go on to advance — survivors and fresh children.
pub open spec fn ast_steps(
    asts: Seq<Asteroid>,
    g0: Game,
    gm: Game,
    keep: Seq<Asteroid>,
    dt: u64,
    now: u64,
) -> bool
    decreases asts.len(),
{
    if asts.len() == 0 {
        gm == g0 && keep == Seq::<Asteroid>::empty()
    } else {
        exists|gmid: Game, keep0: Seq<Asteroid>, fresh_kept: Seq<Asteroid>|
            #![trigger pass_link(gmid, keep0, fresh_kept)]
            ast_steps(asts.drop_last(), g0, gmid, keep0, dt, now) && ast_step(
                gmid,
                gm,
                asts.last(),
                fresh_kept,
                dt,
                now,
            ) && keep == keep0 + fresh_kept
    }
}

/// An asteroid one frame later: position integrated and wrapped.
pub open spec fn asteroid_ticked(a: Asteroid, dt: u64, w: int, h: int) -> Asteroid {
    Asteroid {
        x: wrap::wrap_val(a.x + a.vx * dt, w) as i64,
        y: wrap::wrap_val(a.y + a.vy * dt, h) as i64,
        ..a
    }
}

/// The whole asteroid phase: the collision pass over every rock, then the
/// surviving set advances in order.
pub open spec fn ast_rel(g0: Game, g1: Game, dt: u64, now: u64) -> bool {
    exists|gm: Game, keep: Seq<Asteroid>|
        #![trigger ast_steps(g0.asteroids@, g0, gm, keep, dt, now)]
        ast_steps(g0.asteroids@, g0, gm, keep, dt, now) && g1.asteroids@.len() == keep.len() && (
        forall|i: int|
            0 <= i < keep.len() ==> #[trigger] g1.asteroids@[i] == asteroid_ticked(
                keep[i],
                dt,
                g0.w as int,
                g0.h as int,
            )) && same_frame(gm, g1) && g1.player == gm.player && g1.aliens == gm.aliens
            && g1.black_holes == gm.black_holes && g1.pb == gm.pb && g1.score == gm.score
            && g1.lives == gm.lives && g1.next_life_points == gm.next_life_points && g1.bullets
            == gm.bullets && g1.particles == gm.particles
}

/// Appending one processed asteroid extends the collision-pass chain.
proof fn lemma_ast_steps_extend(
    asts: Seq<Asteroid>,
    g0: Game,
    gmid: Game,
    keep0: Seq<Asteroid>,
    a: Asteroid,
    gm: Game,
    fresh_kept: Seq<Asteroid>,
    dt: u64,
    now: u64,
)
    requires
        ast_steps(asts, g0, gmid, keep0, dt, now),
        ast_step(gmid, gm, a, fresh_kept, dt, now),
    ensures
        ast_steps(asts.push(a), g0, gm, keep0 + fresh_kept, dt, now),
{
    let exts = asts.push(a);
    assert(exts.len() != 0);
    assert(exts.drop_last() =~= asts);
    assert(exts.last() == a);
    assert(ast_steps(exts, g0, gm, keep0 + fresh_kept, dt, now)) by {
        assert(pass_link(gmid, keep0, fresh_kept));
        assert(ast_steps(exts.drop_last(), g0, gmid, keep0, dt, now));
        assert(ast_step(gmid, gm, exts.last(), fresh_kept, dt, now));
    }
}

/// If no bullet in `[j0, j)` sweeps `a` and bullet `j` does, the scan finds
/// exactly `j`.
proof fn lemma_first_sweeper_at(
    bs: Seq<Bullet>,
    a: Asteroid,
    w: int,
    h: int,
    dt: u64,
    j0: int,
    j: int,
)
    requires
        0 <= j0 <= j < bs.len(),
        forall|m: int| j0 <= m < j ==> !bullet_sweeps_asteroid(#[trigger] bs[m], a, w, h, dt),
        bullet_sweeps_asteroid(bs[j], a, w, h, dt),
    ensures
        first_sweeper(bs, a, w, h, dt, j0) == j,
    decreases j - j0,
{
    if j0 < j {
        lemma_first_sweeper_at(bs, a, w, h, dt, j0 + 1, j);
    }
}

/// If no bullet from `j0` on sweeps `a`, the scan finds nothing.
proof fn lemma_first_sweeper_none(bs: Seq<Bullet>, a: Asteroid, w: int, h: int, dt: u64, j0: int)
    requires
        0 <= j0 <= bs.len(),
        forall|m: int| j0 <= m < bs.len() ==> !bullet_sweeps_asteroid(#[trigger] bs[m], a, w, h, dt),
    ensures
        first_sweeper(bs, a, w, h, dt, j0) == -1,
    decreases bs.len() - j0,
{
    if j0 < bs.len() {
        lemma_first_sweeper_none(bs, a, w, h, dt, j0 + 1);
    }
}

/// Points awarded for destroying an alien of each strategy.
pub open spec fn strategy_points(ty: crate::alien::ShootingType) -> u64 {
    match ty {
        crate::alien::ShootingType::Random => ALIEN_RANDOM_POINTS,
        crate::alien::ShootingType::Current => ALIEN_CURRENT_POINTS,
        crate::alien::ShootingType::Future => ALIEN_FUTURE_POINTS,
    }
}

/// The wrapped hitbox `k` of an alien, as a sequence.
pub open spec fn alien_hitbox_seq(al: Alien, w: int, h: int, k: int) -> Seq<(i64, i64)> {
    Seq::new(
        crate::alien::alien_shape_spec(al.shooting_type).len(),
        |i: int|
            wrap::hitbox_point(
                crate::alien::alien_shape_spec(al.shooting_type),
                al.x as int,
                al.y as int,
                w,
                h,
                k,
                i,
            ),
    )
}

/// Whether the live bullet `b` sweeps through any of the nine wrapped
/// hitboxes of the alien `al` this tick.
pub open spec fn bullet_sweeps_alien(b: Bullet, al: Alien, w: int, h: int, dt: u64) -> bool {
    !b.to_die && exists|k: int|
        0 <= k < 9 && crate::geom::polys_intersect(
            #[trigger] alien_hitbox_seq(al, w, h, k),
            trail_seq(b, dt),
        )
}

/// The first bullet from index `j` on that sweeps `al`, or -1.
pub open spec fn first_alien_sweeper(
    bs: Seq<Bullet>,
    al: Alien,
    w: int,
    h: int,
    dt: u64,
    j: int,
) -> int
    decreases bs.len() - j when 0 <= j <= bs.len()
{
    if j < 0 || j >= bs.len() {
        -1
    } else if bullet_sweeps_alien(bs[j], al, w, h, dt) {
        j
    } else {
        first_alien_sweeper(bs, al, w, h, dt, j + 1)
    }
}

/// One alien of the collision pass: if some live bullet sweeps it, the
/// first such bullet is spent, its strategy's points are scored (with any
/// extra life) and its explosion joins the particles; otherwise the alien
/// survives. The alien collection itself is rebuilt afterwards.
pub open spec fn alien_hit_step(
    gA: Game,
    gB: Game,
    al: Alien,
    fresh_kept: Seq<Alien>,
    dt: u64,
    now: u64,
) -> bool {
    let j = first_alien_sweeper(gA.bullets@, al, gA.w as int, gA.h as int, dt, 0);
    &&& same_frame(gA, gB)
    &&& gB.player == gA.player
    &&& gB.asteroids == gA.asteroids
    &&& gB.black_holes == gA.black_holes
    &&& gB.pb == gA.pb
    &&& if j >= 0 {
        &&& gB.bullets@.len() == gA.bullets@.len()
        &&& gB.bullets@[j] == spent_bullet(gA.bullets@[j])
        &&& forall|m: int|
            0 <= m < gA.bullets@.len() && m != j ==> #[trigger] gB.bullets@[m] == gA.bullets@[m]
        &&& award_rel(gA, gB, strategy_points(al.shooting_type) as int)
        &&& fresh_kept.len() == 0
        &&& gB.particles@.len() >= gA.particles@.len() + crate::constants::EXPLOSION_COUNT_MIN
        &&& gB.particles@.subrange(0, gA.particles@.len() as int) == gA.particles@
        &&& forall|i: int|
            gA.particles@.len() <= i < gB.particles@.len() ==> (#[trigger] gB.particles@[i]).x
                == al.x && gB.particles@[i].y == al.y && particle_wf(
                gB.particles@[i],
                gA.w as int,
                gA.h as int,
            )
    } else {
        &&& gB.bullets == gA.bullets
        &&& gB.particles == gA.particles
        &&& gB.score == gA.score
        &&& gB.lives == gA.lives
        &&& gB.next_life_points == gA.next_life_points
        &&& fresh_kept == seq![al]
    }
}

/// The collision pass over a prefix of the aliens, in order.
pub open spec fn alien_steps(
    als: Seq<Alien>,
    g0: Game,
    gm: Game,
    keep: Seq<Alien>,
    dt: u64,
    now: u64,
) -> bool
    decreases als.len(),
{
    if als.len() == 0 {
        gm == g0 && keep == Seq::<Alien>::empty()
    } else {
        exists|gmid: Game, keep0: Seq<Alien>, fresh_kept: Seq<Alien>|
            #![trigger pass_link(gmid, keep0, fresh_kept)]
            alien_steps(als.drop_last(), g0, gmid, keep0, dt, now) && alien_hit_step(
                gmid,
                gm,
                als.last(),
                fresh_kept,
                dt,
                now,
            ) && keep == keep0 + fresh_kept
    }
}

/// One surviving alien advancing: it moves and wraps, attempts a shot when
/// its cadence deadline has passed, and any bullet it hands over (a fresh
/// shot, or one fired earlier and not yet collected) joins the world's.
pub open spec fn alien_move_step(gA: Game, gB: Game, al: Alien, dt: u64, now: u64) -> bool {
    let nx = wrap::wrap_val(al.x + al.vx * dt, gA.w as int);
    let ny = wrap::wrap_val(al.y + al.vy * dt, gA.h as int);
    let fired = now >= al.next_shot && crate::alien::shot_fired(
        al.shooting_type,
        nx,
        ny,
        gA.player.x as int,
        gA.player.y as int,
        gA.player.vx as int,
        gA.player.vy as int,
    );
    &&& same_frame(gA, gB)
    &&& gB.player == gA.player
    &&& gB.asteroids == gA.asteroids
    &&& gB.black_holes == gA.black_holes
    &&& gB.particles == gA.particles
    &&& gB.score == gA.score
    &&& gB.lives == gA.lives
    &&& gB.next_life_points == gA.next_life_points
    &&& gB.pb == gA.pb
    &&& gB.aliens@.len() == gA.aliens@.len() + 1
    &&& gB.aliens@.subrange(0, gA.aliens@.len() as int) == gA.aliens@
    &&& ({
        let na = gB.aliens@.last();
        &&& na.x == nx
        &&& na.y == ny
        &&& na.vx == al.vx
        &&& na.vy == al.vy
        &&& na.shooting_type == al.shooting_type
        &&& na.bullet is None
        &&& (fired ==> na.next_shot == now + crate::alien::shot_delay(
            al.shooting_type,
            gA.score,
        ))
        &&& (!fired ==> na.next_shot == al.next_shot)
    })
    &&& (fired ==> gB.bullets@.len() == gA.bullets@.len() + 1 && gB.bullets@.subrange(
        0,
        gA.bullets@.len() as int,
    ) == gA.bullets@ && crate::alien::fired_bullet_ok(
        al.shooting_type,
        nx,
        ny,
        gA.player.x as int,
        gA.player.y as int,
        gA.player.vx as int,
        gA.player.vy as int,
        gB.bullets@.last(),
        now,
    ))
    &&& (!fired && al.bullet is Some ==> gB.bullets@.len() == gA.bullets@.len() + 1
        && gB.bullets@.subrange(0, gA.bullets@.len() as int) == gA.bullets@
        && gB.bullets@.last() == al.bullet->Some_0)
    &&& (!fired && al.bullet is None ==> gB.bullets == gA.bullets)
}

/// The surviving aliens advancing in order, from a world whose alien
/// collection starts empty.
pub open spec fn alien_post(ks: Seq<Alien>, gA: Game, gB: Game, dt: u64, now: u64) -> bool
    decreases ks.len(),
{
    if ks.len() == 0 {
        &&& same_frame(gA, gB)
        &&& gB.player == gA.player
        &&& gB.asteroids == gA.asteroids
        &&& gB.black_holes == gA.black_holes
        &&& gB.particles == gA.particles
        &&& gB.bullets == gA.bullets
        &&& gB.score == gA.score
        &&& gB.lives == gA.lives
        &&& gB.next_life_points == gA.next_life_points
        &&& gB.pb == gA.pb
        &&& gB.aliens@.len() == 0
    } else {
        exists|gmid: Game|
            #![trigger pass_link(gmid, ks, ks)]
            alien_post(ks.drop_last(), gA, gmid, dt, now) && alien_move_step(
                gmid,
                gB,
                ks.last(),
                dt,
                now,
            )
    }
}

/// The whole alien phase: the collision pass over every alien, then the
/// survivors advance and fire.
pub open spec fn alien_rel(g0: Game, g1: Game, dt: u64, now: u64) -> bool {
    exists|gm: Game, keep: Seq<Alien>|
        #![trigger pass_link(gm, keep, keep)]
        alien_steps(g0.aliens@, g0, gm, keep, dt, now) && alien_post(keep, gm, g1, dt, now)
}

/// Appending one processed alien extends the collision-pass chain.
proof fn lemma_alien_steps_extend(
    als: Seq<Alien>,
    g0: Game,
    gmid: Game,
    keep0: Seq<Alien>,
    al: Alien,
    gm: Game,
    fresh_kept: Seq<Alien>,
    dt: u64,
    now: u64,
)
    requires
        alien_steps(als, g0, gmid, keep0, dt, now),
        alien_hit_step(gmid, gm, al, fresh_kept, dt, now),
    ensures
        alien_steps(als.push(al), g0, gm, keep0 + fresh_kept, dt, now),
{
    let exts = als.push(al);
    assert(exts.drop_last() =~= als);
    assert(exts.last() == al);
    assert(alien_steps(exts, g0, gm, keep0 + fresh_kept, dt, now)) by {
        assert(pass_link(gmid, keep0, fresh_kept));
        assert(alien_steps(exts.drop_last(), g0, gmid, keep0, dt, now));
        assert(alien_hit_step(gmid, gm, exts.last(), fresh_kept, dt, now));
    }
}

/// Appending one advanced survivor extends the movement chain.
proof fn lemma_alien_post_extend(
    ks: Seq<Alien>,
    gA: Game,
    gmid: Game,
    al: Alien,
    gB: Game,
    dt: u64,
    now: u64,
)
    requires
        alien_post(ks, gA, gmid, dt, now),
        alien_move_step(gmid, gB, al, dt, now),
    ensures
        alien_post(ks.push(al), gA, gB, dt, now),
{
    let exts = ks.push(al);
    assert(exts.drop_last() =~= ks);
    assert(exts.last() == al);
    assert(alien_post(exts, gA, gB, dt, now)) by {
        assert(pass_link(gmid, exts, exts));
        assert(alien_post(exts.drop_last(), gA, gmid, dt, now));
        assert(alien_move_step(gmid, gB, exts.last(), dt, now));
    }
}

/// If no bullet in `[j0, j)` sweeps `al` and bullet `j` does, the scan
/// finds exactly `j`.
proof fn lemma_first_alien_sweeper_at(
    bs: Seq<Bullet>,
    al: Alien,
    w: int,
    h: int,
    dt: u64,
    j0: int,
    j: int,
)
    requires
        0 <= j0 <= j < bs.len(),
        forall|m: int| j0 <= m < j ==> !bullet_sweeps_alien(#[trigger] bs[m], al, w, h, dt),
        bullet_sweeps_alien(bs[j], al, w, h, dt),
    ensures
        first_alien_sweeper(bs, al, w, h, dt, j0) == j,
    decreases j - j0,
{
    if j0 < j {
        lemma_first_alien_sweeper_at(bs, al, w, h, dt, j0 + 1, j);
    }
}

/// If no bullet from `j0` on sweeps `al`, the scan finds nothing.
proof fn lemma_first_alien_sweeper_none(
    bs: Seq<Bullet>,
    al: Alien,
    w: int,
    h: int,
    dt: u64,
    j0: int,
)
    requires
        0 <= j0 <= bs.len(),
        forall|m: int| j0 <= m < bs.len() ==> !bullet_sweeps_alien(#[trigger] bs[m], al, w, h, dt),
    ensures
        first_alien_sweeper(bs, al, w, h, dt, j0) == -1,
    decreases bs.len() - j0,
{
    if j0 < bs.len() {
        lemma_first_alien_sweeper_none(bs, al, w, h, dt, j0 + 1);
    }
}

/// Names a chain of intermediate worlds; the matching anchor for the frame
/// existentials.
pub open spec fn frame_link(g1: Game, g2: Game, g3: Game) -> bool {
    true
}

/// One gravity well advancing: a fully shrunk well is dropped; a live one
/// ticks (grow, hold, shrink), then pulls the player's velocity by its
/// force at the player's position.
pub open spec fn bh_move_step(gA: Game, gB: Game, b: BlackHole, dt: u64, now: u64) -> bool {
    if b.radius > 0 || b.expanding {
        let tb = crate::black_hole::well_ticked(b, dt as int, now);
        let f = crate::black_hole::well_force(tb, gA.player.x as int, gA.player.y as int, dt as int);
        &&& same_frame(gA, gB)
        &&& gB.asteroids == gA.asteroids
        &&& gB.aliens == gA.aliens
        &&& gB.bullets == gA.bullets
        &&& gB.particles == gA.particles
        &&& gB.score == gA.score
        &&& gB.lives == gA.lives
        &&& gB.next_life_points == gA.next_life_points
        &&& gB.pb == gA.pb
        &&& gB.black_holes@.len() == gA.black_holes@.len() + 1
        &&& gB.black_holes@.subrange(0, gA.black_holes@.len() as int) == gA.black_holes@
        &&& gB.black_holes@.last() == tb
        &&& gB.player.vx == crate::mathx::clamp_val(
            gA.player.vx + f.0,
            -crate::constants::MAX_SPEED as int,
            crate::constants::MAX_SPEED as int,
        )
        &&& gB.player.vy == crate::mathx::clamp_val(
            gA.player.vy + f.1,
            -crate::constants::MAX_SPEED as int,
            crate::constants::MAX_SPEED as int,
        )
        &&& gB.player.x == gA.player.x
        &&& gB.player.y == gA.player.y
        &&& gB.player.angle == gA.player.angle
        &&& gB.player.left == gA.player.left
        &&& gB.player.right == gA.player.right
        &&& gB.player.up == gA.player.up
        &&& gB.player.particles_to_spawn == gA.player.particles_to_spawn
        &&& gB.player.last_thrust_particle == gA.player.last_thrust_particle
    } else {
        gB == gA
    }
}

/// The gravity-well phase over a prefix of the wells, in order, from a
/// world whose well collection starts empty.
pub open spec fn bh_steps(ws: Seq<BlackHole>, gA: Game, gB: Game, dt: u64, now: u64) -> bool
    decreases ws.len(),
{
    if ws.len() == 0 {
        &&& same_frame(gA, gB)
        &&& gB.player == gA.player
        &&& gB.asteroids == gA.asteroids
        &&& gB.aliens == gA.aliens
        &&& gB.bullets == gA.bullets
        &&& gB.particles == gA.particles
        &&& gB.score == gA.score
        &&& gB.lives == gA.lives
        &&& gB.next_life_points == gA.next_life_points
        &&& gB.pb == gA.pb
        &&& gB.black_holes@.len() == 0
    } else {
        exists|gmid: Game|
            #![trigger frame_link(gmid, gmid, gmid)]
            bh_steps(ws.drop_last(), gA, gmid, dt, now) && bh_move_step(gmid, gB, ws.last(), dt, now)
    }
}

/// The whole gravity-well phase.
pub open spec fn bh_rel(g0: Game, g1: Game, dt: u64, now: u64) -> bool {
    bh_steps(g0.black_holes@, g0, g1, dt, now)
}

/// Appending one advanced well extends the phase chain.
proof fn lemma_bh_steps_extend(
    ws: Seq<BlackHole>,
    gA: Game,
    gmid: Game,
    b: BlackHole,
    gB: Game,
    dt: u64,
    now: u64,
)
    requires
        bh_steps(ws, gA, gmid, dt, now),
        bh_move_step(gmid, gB, b, dt, now),
    ensures
        bh_steps(ws.push(b), gA, gB, dt, now),
{
    let exts = ws.push(b);
    assert(exts.drop_last() =~= ws);
    assert(exts.last() == b);
    assert(bh_steps(exts, gA, gB, dt, now)) by {
        assert(frame_link(gmid, gmid, gmid));
        assert(bh_steps(exts.drop_last(), gA, gmid, dt, now));
        assert(bh_move_step(gmid, gB, exts.last(), dt, now));
    }
}

/// An alien bullet currently inside the player's hitbox: a lost life.
pub open spec fn bullet_threat(g: Game) -> bool {
    exists|i: int|
        0 <= i < g.bullets@.len() && !(#[trigger] g.bullets@[i]).is_player_shot
            && crate::geom::point_in_polygon(
            (g.bullets@[i].x, g.bullets@[i].y),
            Game::player_hitbox_seq(g.player),
        )
}

/// Some asteroid's wrapped hitbox overlapping the player's: a lost life.
pub open spec fn asteroid_threat(g: Game) -> bool {
    exists|i: int, k: int|
        0 <= i < g.asteroids@.len() && 0 <= k < 9 && crate::geom::polys_intersect(
            #[trigger] Game::asteroid_hitbox_seq(g.asteroids@[i], g.w as int, g.h as int, k),
            Game::player_hitbox_seq(g.player),
        )
}

/// The death reset: the player returns to the centre at rest, every
/// transient entity is cleared; on the last life the score resets and the
/// high score updates, with `to_save` carrying a score that beat it.
pub open spec fn died_rel(g0: Game, g1: Game, to_save: Option<u64>) -> bool {
    &&& g1.player.x == g0.w / 2
    &&& g1.player.y == g0.h / 2
    &&& g1.player.vx == 0
    &&& g1.player.vy == 0
    &&& g1.particles@.len() == 0
    &&& g1.bullets@.len() == 0
    &&& g1.asteroids@.len() == 0
    &&& g1.aliens@.len() == 0
    &&& g1.black_holes@.len() == 0
    &&& (g0.lives > 1 ==> g1.lives == g0.lives - 1 && g1.score == g0.score && g1.pb == g0.pb
        && to_save is None)
    &&& (g0.lives <= 1 ==> g1.lives == START_LIVES && g1.score == 0 && g1.pb == (
    if g0.score > g0.pb {
        g0.score as int
    } else {
        g0.pb as int
    }) && (to_save is Some <==> g0.score > g0.pb) && (to_save is Some ==> to_save->Some_0
        == g0.score))
    &&& same_frame(g0, g1)
    &&& g1.next_life_points == g0.next_life_points
}

impl Game {
    /// A fresh world on a `w` by `h` field: the player at the centre, full
    /// lives, score zero, no entities, on the title screen. `pb` is the
    /// high score loaded by the caller.
    pub fn new(w: i64, h: i64, now: u64, pb: u64) -> (g: Game)
        requires
            1 <= w <= MAX_FIELD,
            1 <= h <= MAX_FIELD,
            now <= MAX_NOW,
        ensures
            game_wf(g),
            g.w == w,
            g.h == h,
            g.space_released,
            g.next_asteroid_spawn == sched::next_due(sched::asteroid_tiers(), 0, now),
            g.next_alien_spawn == 0,
            g.next_black_hole_spawn == 0,
            g.lives == START_LIVES,
            g.next_life_points == POINTS_PER_LIFE,
            g.score == 0,
            g.pb == pb,
            g.player.x == w / 2 && g.player.y == h / 2 && g.player.vx == 0 && g.player.vy == 0,
            g.particles@.len() == 0,
            g.bullets@.len() == 0,
            g.asteroids@.len() == 0,
            g.aliens@.len() == 0,
            g.black_holes@.len() == 0,
            g.state == GameState::MainMenu,
            !g.paused,
    {
        let tiers = sched::asteroid_spawn_tiers();
        Game {
            w,
            h,
            space_released: true,
            next_asteroid_spawn: sched::next_spawn_time(&tiers, 0, now),
            next_alien_spawn: 0,
            next_black_hole_spawn: 0,
            lives: START_LIVES,
            next_life_points: POINTS_PER_LIFE,
            score: 0,
            pb,
            player: Player::new(((w as u64) / 2) as i64, ((h as u64) / 2) as i64),
            particles: Vec::new(),
            bullets: Vec::new(),
            asteroids: Vec::new(),
            aliens: Vec::new(),
            black_holes: Vec::new(),
            state: GameState::MainMenu,
            paused: false,
        }
    }

    /// The deadline of the next asteroid spawn, for the given score.
    pub fn get_next_asteroid_spawn(score: u64, now: u64) -> (r: u64)
        requires
            now <= MAX_NOW,
        ensures
            r == sched::next_due(sched::asteroid_tiers(), score, now),
    {
        let tiers = sched::asteroid_spawn_tiers();
        sched::next_spawn_time(&tiers, score, now)
    }

    /// The deadline of the next alien spawn, for the given score.
    pub fn get_next_alien_spawn(score: u64, now: u64) -> (r: u64)
        requires
            now <= MAX_NOW,
        ensures
            r == sched::next_due(sched::alien_tiers(), score, now),
    {
        let tiers = sched::alien_spawn_tiers();
        sched::next_spawn_time(&tiers, score, now)
    }

    /// The deadline of the next gravity-well spawn, for the given score.
    pub fn get_next_black_hole_spawn(score: u64, now: u64) -> (r: u64)
        requires
            now <= MAX_NOW,
        ensures
            r == sched::next_due(sched::black_hole_tiers(), score, now),
    {
        let tiers = sched::black_hole_spawn_tiers();
        sched::next_spawn_time(&tiers, score, now)
    }

    /// Award points and any extra life they earn. Score and lives never
    /// decrease here; both saturate rather than wrap.
    fn award_points(&mut self, pts: u64)
        ensures
            award_rel(*old(self), *final(self), pts as int),
            final(self).score >= old(self).score,
            final(self).lives >= old(self).lives,
            final(self).next_life_points >= old(self).next_life_points,
            final(self).pb == old(self).pb,
            final(self).w == old(self).w,
            final(self).h == old(self).h,
            final(self).space_released == old(self).space_released,
            final(self).next_asteroid_spawn == old(self).next_asteroid_spawn,
            final(self).next_alien_spawn == old(self).next_alien_spawn,
            final(self).next_black_hole_spawn == old(self).next_black_hole_spawn,
            final(self).player == old(self).player,
            final(self).particles == old(self).particles,
            final(self).bullets == old(self).bullets,
            final(self).asteroids == old(self).asteroids,
            final(self).aliens == old(self).aliens,
            final(self).black_holes == old(self).black_holes,
            final(self).state == old(self).state,
            final(self).paused == old(self).paused,
    {
        match self.score.checked_add(pts) {
            Some(s) => {
                self.score = s;
            },
            None => {},
        }
        if self.score > self.next_life_points {
            match (self.next_life_points.checked_add(POINTS_PER_LIFE), self.lives.checked_add(1)) {
                (Some(nlp), Some(l)) => {
                    self.next_life_points = nlp;
                    self.lives = l;
                },
                _ => {},
            }
        }
    }

    /// A key event. On the title screen the fire key starts a game with the
    /// player centred. In game: pause toggles on press; while paused nothing
    /// else is heard; turning and thrust follow the key state; fire shoots
    /// one bullet per press of the latch.
    pub fn handle_key_event(&mut self, key: Key, pressed: bool, now: u64)
        requires
            now <= MAX_NOW,
            game_wf(*old(self)),
        ensures
            game_wf(*final(self)),
            final(self).w == old(self).w,
            final(self).h == old(self).h,
            final(self).score == old(self).score,
            final(self).lives == old(self).lives,
            final(self).pb == old(self).pb,
            old(self).state == GameState::MainMenu ==> ({
                &&& (key == Key::Fire ==> final(self).state == GameState::InGame
                    && final(self).player.x == old(self).w / 2
                    && final(self).player.y == old(self).h / 2)
                &&& (key != Key::Fire ==> *final(self) == *old(self))
            }),
            old(self).state == GameState::InGame ==> final(self).state == GameState::InGame,
            old(self).state == GameState::InGame && key == Key::Pause && pressed
                ==> final(self).paused == !old(self).paused,
            old(self).state == GameState::InGame && old(self).paused && !(key == Key::Pause
                && pressed) ==> *final(self) == *old(self),
            old(self).state == GameState::InGame && !old(self).paused && (key == Key::Left || key
                == Key::Right || key == Key::Thrust) ==> ({
                &&& final(self).player.left == (if key == Key::Left {
                    pressed
                } else {
                    old(self).player.left
                })
                &&& final(self).player.right == (if key == Key::Right {
                    pressed
                } else {
                    old(self).player.right
                })
                &&& final(self).player.up == (if key == Key::Thrust {
                    pressed
                } else {
                    old(self).player.up
                })
                &&& final(self).bullets == old(self).bullets
                &&& final(self).space_released == old(self).space_released
            }),
            old(self).state == GameState::InGame && !old(self).paused && key == Key::Fire ==> ({
                &&& final(self).space_released == !pressed
                &&& (pressed && old(self).space_released
                    ==> final(self).bullets@.len() == old(self).bullets@.len() + 1
                    && (final(self).bullets@.last()).is_player_shot)
                &&& (!(pressed && old(self).space_released)
                    ==> final(self).bullets == old(self).bullets)
            }),
    {
        match self.state {
            GameState::MainMenu => {
                if key == Key::Fire {
                    self.state = GameState::InGame;
                    self.player.set_location(
                        ((self.w as u64) / 2) as i64,
                        ((self.h as u64) / 2) as i64,
                    );
                }
            },
            GameState::InGame => {
                if key == Key::Pause && pressed {
                    self.paused = !self.paused;
                    return ;
                }
                if self.paused {
                    return ;
                }
                match key {
                    Key::Fire => {
                        if pressed && self.space_released {
                            let b = self.player.shoot_bullet(now);
                            self.bullets.push(b);
                        }
                        self.space_released = !pressed;
                    },
                    _ => self.player.handle_key_event(key, pressed),
                }
            },
        }
    }

    /// Losing a life: the player returns to the centre at rest, every
    /// transient entity is cleared, and either a life is deducted or — on
    /// the last life — the game resets its score, updating the high score.
    /// Returns the score to persist when it beat the old high score.
    pub fn die(&mut self) -> (to_save: Option<u64>)
        requires
            game_wf(*old(self)),
        ensures
            game_wf(*final(self)),
            died_rel(*old(self), *final(self), to_save),
            final(self).player.x == old(self).w / 2,
            final(self).player.y == old(self).h / 2,
            final(self).player.vx == 0,
            final(self).player.vy == 0,
            final(self).particles@.len() == 0,
            final(self).bullets@.len() == 0,
            final(self).asteroids@.len() == 0,
            final(self).aliens@.len() == 0,
            final(self).black_holes@.len() == 0,
            old(self).lives > 1 ==> final(self).lives == old(self).lives - 1 && final(self).score
                == old(self).score && final(self).pb == old(self).pb && to_save is None,
            old(self).lives <= 1 ==> ({
                &&& final(self).lives == START_LIVES
                &&& final(self).score == 0
                &&& final(self).pb == if old(self).score > old(self).pb {
                    old(self).score as int
                } else {
                    old(self).pb as int
                }
                &&& (to_save is Some <==> old(self).score > old(self).pb)
                &&& (to_save is Some ==> to_save->Some_0 == old(self).score)
            }),
            final(self).w == old(self).w,
            final(self).h == old(self).h,
            final(self).state == old(self).state,
            final(self).paused == old(self).paused,
            final(self).space_released == old(self).space_released,
            final(self).next_asteroid_spawn == old(self).next_asteroid_spawn,
            final(self).next_alien_spawn == old(self).next_alien_spawn,
            final(self).next_black_hole_spawn == old(self).next_black_hole_spawn,
            final(self).next_life_points == old(self).next_life_points,
    {
        self.player.die(self.w, self.h);
        self.asteroids = Vec::new();
        self.particles = Vec::new();
        self.bullets = Vec::new();
        self.aliens = Vec::new();
        self.black_holes = Vec::new();
        if self.lives <= 1 {
            self.lives = START_LIVES;
            let mut to_save: Option<u64> = None;
            if self.score > self.pb {
                to_save = Some(self.score);
                self.pb = self.score;
            }
            self.score = 0;
            to_save
        } else {
            self.lives = self.lives - 1;
            None
        }
    }

    /// Spawn due hazards: an asteroid placed away from the player whenever
    /// its deadline passed, an alien when due, unlocked and under the cap,
    /// and a gravity well when due and the score allows wells at all. A
    /// deadline is recomputed from the current score only when its spawn
    /// succeeded; a blocked spawn is retried next tick.
    fn spawn_hazards(&mut self, now: u64)
        requires
            now <= MAX_NOW,
            game_wf(*old(self)),
        ensures
            spawn_rel(*old(self), *final(self), now),
            game_wf(*final(self)),
            final(self).w == old(self).w,
            final(self).h == old(self).h,
            final(self).state == old(self).state,
            final(self).paused == old(self).paused,
            final(self).space_released == old(self).space_released,
            final(self).score == old(self).score,
            final(self).lives == old(self).lives,
            final(self).pb == old(self).pb,
            final(self).next_life_points == old(self).next_life_points,
            final(self).player == old(self).player,
            final(self).bullets == old(self).bullets,
            final(self).particles == old(self).particles,
            now > old(self).next_asteroid_spawn
                ==> final(self).asteroids@.len() == old(self).asteroids@.len() + 1
                && final(self).next_asteroid_spawn
                == sched::next_due(sched::asteroid_tiers(), old(self).score, now),
            !(now > old(self).next_asteroid_spawn)
                ==> final(self).asteroids == old(self).asteroids
                && final(self).next_asteroid_spawn == old(self).next_asteroid_spawn,
            now > old(self).next_alien_spawn && old(self).aliens@.len() < MAX_ALIENS
                && old(self).score >= crate::constants::ALIEN_RANDOM_MIN_POINTS
                ==> final(self).aliens@.len() == old(self).aliens@.len() + 1
                && final(self).next_alien_spawn
                == sched::next_due(sched::alien_tiers(), old(self).score, now),
            !(now > old(self).next_alien_spawn && old(self).aliens@.len() < MAX_ALIENS
                && old(self).score >= crate::constants::ALIEN_RANDOM_MIN_POINTS)
                ==> final(self).aliens == old(self).aliens
                && final(self).next_alien_spawn == old(self).next_alien_spawn,
            now > old(self).next_black_hole_spawn && old(self).score >= BLACK_HOLE_MIN_POINTS
                ==> final(self).black_holes@.len() == old(self).black_holes@.len() + 1
                && final(self).next_black_hole_spawn
                == sched::next_due(sched::black_hole_tiers(), old(self).score, now),
            !(now > old(self).next_black_hole_spawn && old(self).score >= BLACK_HOLE_MIN_POINTS)
                ==> final(self).black_holes == old(self).black_holes
                && final(self).next_black_hole_spawn == old(self).next_black_hole_spawn,
    {
        if now > self.next_asteroid_spawn {
            self.next_asteroid_spawn = Self::get_next_asteroid_spawn(self.score, now);
            let loc = Asteroid::get_spawn_location(self.player.get_x(), self.player.get_y(), self.w, self.h);
            let radius = rng::rand_u64(
                ASTEROID_SPAWN_RADIUS_MIN as u64,
                ASTEROID_SPAWN_RADIUS_MAX as u64,
            ) as i64;
            let a = Asteroid::new(loc.0, loc.1, radius);
            self.asteroids.push(a);
        }
        if now > self.next_alien_spawn && self.aliens.len() < MAX_ALIENS {
            match Alien::new(self.score, self.w, self.h, now) {
                Some(a) => {
                    self.next_alien_spawn = Self::get_next_alien_spawn(self.score, now);
                    self.aliens.push(a);
                },
                None => {},
            }
        }
        if now > self.next_black_hole_spawn && self.score >= BLACK_HOLE_MIN_POINTS {
            self.next_black_hole_spawn = Self::get_next_black_hole_spawn(self.score, now);
            let b = BlackHole::new(self.w, self.h, now);
            self.black_holes.push(b);
        }
    }

    /// Advance the player, collect its exhaust, and advance the particles,
    /// dropping exactly the expired ones.
    fn tick_player_and_particles(&mut self, dt: u64, now: u64)
        requires
            0 < dt <= MAX_DT,
            now <= MAX_NOW,
            game_wf(*old(self)),
        ensures
            move_rel(*old(self), *final(self), dt, now),
            game_wf(*final(self)),
            final(self).w == old(self).w,
            final(self).h == old(self).h,
            final(self).state == old(self).state,
            final(self).paused == old(self).paused,
            final(self).score == old(self).score,
            final(self).lives == old(self).lives,
            final(self).pb == old(self).pb,
    {
        let ghost parts0 = self.particles@;
        let ghost queue0 = self.player.particles_to_spawn@;
        self.player.tick(dt, now, self.w, self.h);
        let mut fresh = self.player.get_particles();
        let ghost fresh0 = fresh@;
        let ghost em = fresh0.subrange(queue0.len() as int, fresh0.len() as int);
        proof {
            assert(queue0 + em =~= fresh0);
            assert(forall|i: int|
                0 <= i < fresh0.len() ==> particle_wf(#[trigger] fresh0[i], self.w as int, self.h as int));
        }
        self.particles.append(&mut fresh);
        let ghost pmoved = self.player;
        let ghost allp = parts0 + fresh0;
        proof {
            assert(parts0 + queue0 + em =~= allp);
        }
        let mut olds: Vec<Particle> = Vec::new();
        core::mem::swap(&mut olds, &mut self.particles);
        let ghost n = allp.len() as int;
        proof {
            assert(allp.subrange(0, 0) =~= Seq::<Particle>::empty());
        }
        while olds.len() > 0
            invariant
                0 < dt <= MAX_DT,
                now <= MAX_NOW,
                game_wf(*self),
                n == allp.len(),
                olds@.len() <= n,
                olds@ == allp.subrange(n - olds@.len(), n),
                self.particles@ == live_ticked(
                    allp.subrange(0, n - olds@.len()),
                    dt as int,
                    now,
                    self.w as int,
                    self.h as int,
                ),
                forall|i: int|
                    0 <= i < n ==> particle_wf(#[trigger] allp[i], self.w as int, self.h as int),
                self.w == old(self).w,
                self.h == old(self).h,
                self.state == old(self).state,
                self.paused == old(self).paused,
                self.space_released == old(self).space_released,
                self.score == old(self).score,
                self.lives == old(self).lives,
                self.pb == old(self).pb,
                self.next_life_points == old(self).next_life_points,
                self.next_asteroid_spawn == old(self).next_asteroid_spawn,
                self.next_alien_spawn == old(self).next_alien_spawn,
                self.next_black_hole_spawn == old(self).next_black_hole_spawn,
                self.player == pmoved,
                self.bullets == old(self).bullets,
                self.asteroids == old(self).asteroids,
                self.aliens == old(self).aliens,
                self.black_holes == old(self).black_holes,
            decreases olds@.len(),
        {
            let ghost k = n - olds@.len();
            let mut p = olds.remove(0);
            proof {
                assert(p == allp[k]);
                assert(allp.subrange(0, k + 1).drop_last() =~= allp.subrange(0, k));
                assert(allp.subrange(0, k + 1).last() == allp[k]);
                assert(olds@ =~= allp.subrange(k + 1, n));
            }
            if p.is_alive(now) {
                let ghost pre = p;
                p.tick(dt, self.w, self.h);
                proof {
                    assert(p == particle_ticked(pre, dt as int, self.w as int, self.h as int));
                }
                self.particles.push(p);
            }
        }
        proof {
            assert(allp.subrange(0, n) =~= allp);
            let g0 = *old(self);
            assert(em.len() == (if g0.player.up {
                crate::particle::emit_count(
                    crate::constants::THRUST_PPS,
                    dt,
                    g0.player.last_thrust_particle,
                    now,
                )
            } else {
                0int
            }));
            assert forall|i: int|
                0 <= i < em.len() implies particle_wf(#[trigger] em[i], g0.w as int, g0.h as int)
                    && em[i].x == self.player.x && em[i].y == self.player.y
                    && crate::player::thrust_exhaust(
                    em[i].vx,
                    em[i].vy,
                    g0.player.vx,
                    g0.player.vy,
                    g0.player.angle,
                ) by {
                assert(em[i] == fresh0[queue0.len() + i]);
            }
            assert(g0.particles@ + g0.player.particles_to_spawn@ + em =~= allp);
            assert(self.particles@ == live_ticked(
                g0.particles@ + g0.player.particles_to_spawn@ + em,
                dt as int,
                now,
                g0.w as int,
                g0.h as int,
            ));
        }
    }

    /// The player's hitbox as a sequence, for stating collisions.
    pub open spec fn player_hitbox_seq(p: Player) -> Seq<(i64, i64)> {
        Seq::new(4, |i: int| crate::player::player_hitbox_point(p, i))
    }

    /// Whether an alien bullet currently sits inside the player's hitbox.
    fn player_hit_by_bullet(&self) -> (hit: bool)
        requires
            game_wf(*self),
        ensures
            hit == bullet_threat(*self),
    {
        let hb = self.player.get_hitbox();
        proof {
            assert(hb@ =~= Self::player_hitbox_seq(self.player));
        }
        let n = self.bullets.len();
        let mut i: usize = 0;
        while i < n
            invariant
                game_wf(*self),
                n == self.bullets@.len(),
                0 <= i <= n,
                hb@ == Self::player_hitbox_seq(self.player),
                hb@.len() == 4,
                crate::geom::poly_ok(hb@),
                forall|k: int|
                    0 <= k < i ==> !(!(#[trigger] self.bullets@[k]).is_player_shot
                        && crate::geom::point_in_polygon(
                        (self.bullets@[k].x, self.bullets@[k].y),
                        Self::player_hitbox_seq(self.player),
                    )),
            decreases n - i,
        {
            let b = &self.bullets[i];
            if !b.get_is_player_shot() && crate::geom::point_intersects_polygon(
                b.get_location(),
                &hb,
            ) {
                return true;
            }
            i += 1;
        }
        false
    }

    /// Drop bullets that expired or already hit something; exactly the
    /// live, unspent ones remain, in order.
    fn prune_bullets(&mut self, now: u64)
        requires
            game_wf(*old(self)),
        ensures
            prune_rel(*old(self), *final(self), now),
            game_wf(*final(self)),
            final(self).w == old(self).w,
            final(self).h == old(self).h,
            final(self).state == old(self).state,
            final(self).paused == old(self).paused,
            final(self).score == old(self).score,
            final(self).lives == old(self).lives,
            final(self).pb == old(self).pb,
            final(self).player == old(self).player,
    {
        let ghost orig = self.bullets@;
        let mut olds: Vec<Bullet> = Vec::new();
        core::mem::swap(&mut olds, &mut self.bullets);
        let ghost n = orig.len() as int;
        proof {
            assert(orig.subrange(0, n) =~= orig);
            assert(orig.subrange(0, 0) =~= Seq::<Bullet>::empty());
        }
        while olds.len() > 0
            invariant
                game_wf(*self),
                n == orig.len(),
                olds@.len() <= n,
                olds@ == orig.subrange(n - olds@.len(), n),
                self.bullets@ == kept_bullets(orig.subrange(0, n - olds@.len()), now),
                forall|i: int| 0 <= i < n ==> bullet_wf(#[trigger] orig[i], self.w as int, self.h as int),
                self.w == old(self).w,
                self.h == old(self).h,
                self.state == old(self).state,
                self.paused == old(self).paused,
                self.space_released == old(self).space_released,
                self.score == old(self).score,
                self.lives == old(self).lives,
                self.pb == old(self).pb,
                self.next_life_points == old(self).next_life_points,
                self.next_asteroid_spawn == old(self).next_asteroid_spawn,
                self.next_alien_spawn == old(self).next_alien_spawn,
                self.next_black_hole_spawn == old(self).next_black_hole_spawn,
                self.player == old(self).player,
                self.particles == old(self).particles,
                self.asteroids == old(self).asteroids,
                self.aliens == old(self).aliens,
                self.black_holes == old(self).black_holes,
            decreases olds@.len(),
        {
            let ghost k = n - olds@.len();
            let b = olds.remove(0);
            proof {
                assert(b == orig[k]);
                assert(orig.subrange(0, k + 1).drop_last() =~= orig.subrange(0, k));
                assert(orig.subrange(0, k + 1).last() == orig[k]);
                assert(olds@ =~= orig.subrange(k + 1, n));
            }
            if b.is_alive(now) && !b.to_die {
                self.bullets.push(b);
            }
        }
        proof {
            assert(orig.subrange(0, n) =~= orig);
        }
    }

    /// Advance every bullet in place and collect the trail particles they
    /// emitted.
    fn tick_bullets(&mut self, dt: u64, now: u64)
        requires
            0 < dt <= MAX_DT,
            now <= MAX_NOW,
            game_wf(*old(self)),
        ensures
            tickb_rel(*old(self), *final(self), dt, now),
            game_wf(*final(self)),
            final(self).w == old(self).w,
            final(self).h == old(self).h,
            final(self).state == old(self).state,
            final(self).paused == old(self).paused,
            final(self).score == old(self).score,
            final(self).lives == old(self).lives,
            final(self).pb == old(self).pb,
    {
        let ghost orig = self.bullets@;
        let ghost parts0 = self.particles@;
        let mut olds: Vec<Bullet> = Vec::new();
        core::mem::swap(&mut olds, &mut self.bullets);
        let ghost n = orig.len() as int;
        while olds.len() > 0
            invariant
                0 < dt <= MAX_DT,
                now <= MAX_NOW,
                game_wf(*self),
                n == orig.len(),
                olds@.len() <= n,
                olds@ == orig.subrange(n - olds@.len(), n),
                self.bullets@.len() == n - olds@.len(),
                forall|i: int|
                    0 <= i < self.bullets@.len() ==> bullet_kine(
                        orig[i],
                        #[trigger] self.bullets@[i],
                        dt,
                        now,
                        self.w as int,
                        self.h as int,
                    ),
                forall|i: int|
                    0 <= i < n ==> bullet_wf(#[trigger] orig[i], self.w as int, self.h as int),
                self.particles@.len() >= parts0.len(),
                self.particles@.subrange(0, parts0.len() as int) == parts0,
                forall|i: int|
                    parts0.len() <= i < self.particles@.len() ==> particle_wf(
                        #[trigger] self.particles@[i],
                        self.w as int,
                        self.h as int,
                    ),
                self.w == old(self).w,
                self.h == old(self).h,
                self.state == old(self).state,
                self.paused == old(self).paused,
                self.space_released == old(self).space_released,
                self.score == old(self).score,
                self.lives == old(self).lives,
                self.pb == old(self).pb,
                self.next_life_points == old(self).next_life_points,
                self.next_asteroid_spawn == old(self).next_asteroid_spawn,
                self.next_alien_spawn == old(self).next_alien_spawn,
                self.next_black_hole_spawn == old(self).next_black_hole_spawn,
                self.player == old(self).player,
                self.asteroids == old(self).asteroids,
                self.aliens == old(self).aliens,
                self.black_holes == old(self).black_holes,
                parts0 == old(self).particles@,
            decreases olds@.len(),
        {
            let ghost k = n - olds@.len();
            let mut b = olds.remove(0);
            proof {
                assert(b == orig[k]);
                assert(olds@ =~= orig.subrange(k + 1, n));
            }
            b.tick(dt, now, self.w, self.h);
            let mut ps = b.get_particles_to_spawn();
            proof {
                assert(forall|i: int|
                    0 <= i < ps@.len() ==> particle_wf(#[trigger] ps@[i], self.w as int, self.h as int));
                assert(bullet_kine(orig[k], b, dt, now, self.w as int, self.h as int));
            }
            self.particles.append(&mut ps);
            proof {
                assert(self.particles@.subrange(0, parts0.len() as int) =~= parts0);
            }
            self.bullets.push(b);
        }
        proof {
            assert(orig.subrange(0, n) =~= orig);
        }
    }

    /// Mark bullet `j` as spent, in place.
    fn mark_bullet_dead(&mut self, j: usize)
        requires
            game_wf(*old(self)),
            j < old(self).bullets@.len(),
        ensures
            game_wf(*final(self)),
            final(self).bullets@.len() == old(self).bullets@.len(),
            final(self).bullets@[j as int] == spent_bullet(old(self).bullets@[j as int]),
            forall|k: int|
                0 <= k < old(self).bullets@.len() && k != j ==> #[trigger] final(self).bullets@[k]
                    == old(self).bullets@[k],
            final(self).w == old(self).w,
            final(self).h == old(self).h,
            final(self).state == old(self).state,
            final(self).paused == old(self).paused,
            final(self).space_released == old(self).space_released,
            final(self).score == old(self).score,
            final(self).lives == old(self).lives,
            final(self).pb == old(self).pb,
            final(self).next_life_points == old(self).next_life_points,
            final(self).next_asteroid_spawn == old(self).next_asteroid_spawn,
            final(self).next_alien_spawn == old(self).next_alien_spawn,
            final(self).next_black_hole_spawn == old(self).next_black_hole_spawn,
            final(self).player == old(self).player,
            final(self).particles == old(self).particles,
            final(self).asteroids == old(self).asteroids,
            final(self).aliens == old(self).aliens,
            final(self).black_holes == old(self).black_holes,
    {
        let mut b = self.bullets.remove(j);
        b.to_die = true;
        self.bullets.insert(j, b);
    }

    /// The bullet-versus-asteroid pass: each asteroid swept by a live
    /// bullet's trail is destroyed — scoring points inverse to its radius,
    /// splitting per the split rule, spending that bullet, leaving an
    /// explosion — and the survivors and children then advance.
    #[verifier::rlimit(100)]
    fn asteroid_pass(&mut self, dt: u64, now: u64)
        requires
            0 < dt <= MAX_DT,
            now <= MAX_NOW,
            game_wf(*old(self)),
        ensures
            ast_rel(*old(self), *final(self), dt, now),
            game_wf(*final(self)),
            final(self).w == old(self).w,
            final(self).h == old(self).h,
            final(self).state == old(self).state,
            final(self).paused == old(self).paused,
            final(self).space_released == old(self).space_released,
            final(self).score >= old(self).score,
            final(self).lives >= old(self).lives,
            final(self).pb == old(self).pb,
            final(self).next_asteroid_spawn == old(self).next_asteroid_spawn,
            final(self).next_alien_spawn == old(self).next_alien_spawn,
            final(self).next_black_hole_spawn == old(self).next_black_hole_spawn,
            final(self).player == old(self).player,
            final(self).aliens == old(self).aliens,
            final(self).black_holes == old(self).black_holes,
    {
        let ghost g0 = *old(self);
        let mut olds: Vec<Asteroid> = Vec::new();
        core::mem::swap(&mut olds, &mut self.asteroids);
        let mut keep: Vec<Asteroid> = Vec::new();
        let ghost n = g0.asteroids@.len() as int;
        proof {
            assert(g0.asteroids@.subrange(0, 0) =~= Seq::<Asteroid>::empty());
            assert((Game { asteroids: g0.asteroids, ..*self }) == g0);
        }
        while olds.len() > 0
            invariant
                0 < dt <= MAX_DT,
                now <= MAX_NOW,
                game_wf(g0),
                game_wf(*self),
                g0 == *old(self),
                n == g0.asteroids@.len(),
                olds@.len() <= n,
                olds@ == g0.asteroids@.subrange(n - olds@.len(), n),
                self.asteroids@.len() == 0,
                ast_steps(
                    g0.asteroids@.subrange(0, n - olds@.len()),
                    g0,
                    (Game { asteroids: g0.asteroids, ..*self }),
                    keep@,
                    dt,
                    now,
                ),
                forall|i: int|
                    0 <= i < keep@.len() ==> asteroid_wf(#[trigger] keep@[i], self.w as int, self.h as int),
                self.w == g0.w,
                self.h == g0.h,
                self.score >= g0.score,
                self.lives >= g0.lives,
                self.pb == g0.pb,
                self.state == g0.state,
                self.paused == g0.paused,
                self.space_released == g0.space_released,
                self.next_asteroid_spawn == g0.next_asteroid_spawn,
                self.next_alien_spawn == g0.next_alien_spawn,
                self.next_black_hole_spawn == g0.next_black_hole_spawn,
                self.player == g0.player,
                self.aliens == g0.aliens,
                self.black_holes == g0.black_holes,
            decreases olds@.len(),
        {
            let ghost k = n - olds@.len();
            let ghost gpre = Game { asteroids: g0.asteroids, ..*self };
            let ghost keep_pre = keep@;
            let a = olds.remove(0);
            proof {
                assert(a == g0.asteroids@[k]);
                assert(olds@ =~= g0.asteroids@.subrange(k + 1, n));
                assert(asteroid_wf(a, self.w as int, self.h as int));
            }
            let hitboxes = a.get_hitboxes(self.w, self.h);
            let ghost bs = self.bullets@;
            let n_b = self.bullets.len();
            let mut fidx: usize = n_b;
            let mut j: usize = 0;
            while j < n_b
                invariant
                    0 < dt <= MAX_DT,
                    game_wf(*self),
                    bs == self.bullets@,
                    n_b == bs.len(),
                    0 <= j <= n_b,
                    fidx as int <= n_b as int,
                    asteroid_wf(a, self.w as int, self.h as int),
                    hitboxes@.len() == 9,
                    forall|kk: int| 0 <= kk < 9 ==> (#[trigger] hitboxes@[kk])@.len() >= 3,
                    forall|kk: int| 0 <= kk < 9 ==> crate::geom::poly_ok((#[trigger] hitboxes@[kk])@),
                    forall|kk: int|
                        0 <= kk < 9 ==> (#[trigger] hitboxes@[kk])@ == Self::asteroid_hitbox_seq(
                            a,
                            self.w as int,
                            self.h as int,
                            kk,
                        ),
                    fidx as int == n_b as int ==> (forall|m: int|
                        0 <= m < j ==> !bullet_sweeps_asteroid(
                            #[trigger] bs[m],
                            a,
                            self.w as int,
                            self.h as int,
                            dt,
                        )),
                    (fidx as int) < n_b as int ==> bullet_sweeps_asteroid(
                        bs[fidx as int],
                        a,
                        self.w as int,
                        self.h as int,
                        dt,
                    ) && (forall|m: int|
                        0 <= m < fidx as int ==> !bullet_sweeps_asteroid(
                            #[trigger] bs[m],
                            a,
                            self.w as int,
                            self.h as int,
                            dt,
                        )),
                    (fidx as int) < n_b as int ==> j as int == n_b as int,
                decreases n_b - j,
            {
                let dead = self.bullets[j].to_die;
                if !dead {
                    let trail = self.bullets[j].get_physics_trail(dt);
                    proof {
                        assert(trail@ =~= trail_seq(bs[j as int], dt));
                    }
                    let found = wrap::hitboxes_intersect_poly(&hitboxes, &trail);
                    if found {
                        proof {
                            let kk = choose|kk: int|
                                0 <= kk < hitboxes@.len() && crate::geom::polys_intersect(
                                    (#[trigger] hitboxes@[kk])@,
                                    trail@,
                                );
                            assert(crate::geom::polys_intersect(
                                Self::asteroid_hitbox_seq(a, self.w as int, self.h as int, kk),
                                trail_seq(bs[j as int], dt),
                            ));
                            assert(bullet_sweeps_asteroid(
                                bs[j as int],
                                a,
                                self.w as int,
                                self.h as int,
                                dt,
                            ));
                        }
                        fidx = j;
                        j = n_b;
                    } else {
                        proof {
                            assert forall|kk: int| 0 <= kk < 9 implies !crate::geom::polys_intersect(
                                #[trigger] Self::asteroid_hitbox_seq(
                                    a,
                                    self.w as int,
                                    self.h as int,
                                    kk,
                                ),
                                trail_seq(bs[j as int], dt),
                            ) by {
                                assert(!crate::geom::polys_intersect(hitboxes@[kk]@, trail@));
                            }
                            assert(!bullet_sweeps_asteroid(
                                bs[j as int],
                                a,
                                self.w as int,
                                self.h as int,
                                dt,
                            ));
                        }
                        j += 1;
                    }
                } else {
                    proof {
                        assert(!bullet_sweeps_asteroid(
                            bs[j as int],
                            a,
                            self.w as int,
                            self.h as int,
                            dt,
                        ));
                    }
                    j += 1;
                }
            }
            if fidx < n_b {
                proof {
                    lemma_first_sweeper_at(
                        bs,
                        a,
                        self.w as int,
                        self.h as int,
                        dt,
                        0,
                        fidx as int,
                    );
                }
                self.mark_bullet_dead(fidx);
                let pts = ASTEROID_SCORE_PER_RADIUS / (a.get_radius() as u64);
                self.award_points(pts);
                match a.check_split() {
                    Some(mut children) => {
                        while children.len() > 0
                            invariant
                                1 <= self.w <= MAX_FIELD,
                                1 <= self.h <= MAX_FIELD,
                                forall|i: int|
                                    0 <= i < children@.len() ==> asteroid_wf(
                                        #[trigger] children@[i],
                                        self.w as int,
                                        self.h as int,
                                    ) && asteroid_child_ok(children@[i], a),
                                forall|i: int|
                                    0 <= i < keep@.len() ==> asteroid_wf(
                                        #[trigger] keep@[i],
                                        self.w as int,
                                        self.h as int,
                                    ),
                                keep@.len() >= keep_pre.len(),
                                keep@.subrange(0, keep_pre.len() as int) == keep_pre,
                                forall|i: int|
                                    keep_pre.len() <= i < keep@.len() ==> asteroid_child_ok(
                                        #[trigger] keep@[i],
                                        a,
                                    ),
                                keep@.len() + children@.len() == keep_pre.len() + 2,
                            decreases children@.len(),
                        {
                            let c = children.remove(0);
                            keep.push(c);
                            proof {
                                assert(keep@.subrange(0, keep_pre.len() as int) =~= keep_pre);
                            }
                        }
                    },
                    None => {},
                }
                let mut expl = Particle::generate_explosion_particles(a.get_x(), a.get_y(), now);
                proof {
                    assert(forall|i: int|
                        0 <= i < expl@.len() ==> particle_wf(
                            #[trigger] expl@[i],
                            self.w as int,
                            self.h as int,
                        ));
                }
                let ghost parts_pre = self.particles@;
                self.particles.append(&mut expl);
                proof {
                    assert(self.particles@.subrange(0, parts_pre.len() as int) =~= parts_pre);
                }
            } else {
                proof {
                    lemma_first_sweeper_none(bs, a, self.w as int, self.h as int, dt, 0);
                }
                keep.push(a);
            }
            proof {
                let gnow = Game { asteroids: g0.asteroids, ..*self };
                let fresh_kept = keep@.subrange(keep_pre.len() as int, keep@.len() as int);
                assert(keep@ =~= keep_pre + fresh_kept);
                if (fidx as int) < n_b as int {
                    assert(first_sweeper(bs, a, g0.w as int, g0.h as int, dt, 0) == fidx as int);
                    assert(award_rel(
                        gpre,
                        gnow,
                        ASTEROID_SCORE_PER_RADIUS as int / (a.radius as int),
                    ));
                } else {
                    assert(fresh_kept =~= seq![a]);
                }
                assert(ast_step(gpre, gnow, a, fresh_kept, dt, now));
                assert(g0.asteroids@.subrange(0, k + 1).drop_last() =~= g0.asteroids@.subrange(
                    0,
                    k,
                ));
                assert(g0.asteroids@.subrange(0, k + 1).last() == a);
                assert(ast_steps(
                    g0.asteroids@.subrange(0, k + 1).drop_last(),
                    g0,
                    gpre,
                    keep_pre,
                    dt,
                    now,
                ));
                lemma_ast_steps_extend(
                    g0.asteroids@.subrange(0, k),
                    g0,
                    gpre,
                    keep_pre,
                    a,
                    gnow,
                    fresh_kept,
                    dt,
                    now,
                );
                assert(g0.asteroids@.subrange(0, k).push(a) =~= g0.asteroids@.subrange(0, k + 1));
                assert(keep@ == keep_pre + fresh_kept);
                assert(ast_steps(g0.asteroids@.subrange(0, k + 1), g0, gnow, keep@, dt, now));
            }
        }
        let ghost gm = Game { asteroids: g0.asteroids, ..*self };
        let ghost keepv = keep@;
        proof {
            assert(g0.asteroids@.subrange(0, n) =~= g0.asteroids@);
            assert(ast_steps(g0.asteroids@, g0, gm, keepv, dt, now));
        }
        let ghost nk = keepv.len() as int;
        while keep.len() > 0
            invariant
                0 < dt <= MAX_DT,
                game_wf(*self),
                nk == keepv.len(),
                keep@.len() <= nk,
                keep@ == keepv.subrange(nk - keep@.len(), nk),
                self.asteroids@.len() == nk - keep@.len(),
                forall|i: int|
                    0 <= i < self.asteroids@.len() ==> #[trigger] self.asteroids@[i]
                        == asteroid_ticked(keepv[i], dt, g0.w as int, g0.h as int),
                forall|i: int|
                    0 <= i < nk ==> asteroid_wf(#[trigger] keepv[i], self.w as int, self.h as int),
                self.w == gm.w,
                self.h == gm.h,
                self.state == gm.state,
                self.paused == gm.paused,
                self.space_released == gm.space_released,
                self.score == gm.score,
                self.lives == gm.lives,
                self.pb == gm.pb,
                self.next_life_points == gm.next_life_points,
                self.next_asteroid_spawn == gm.next_asteroid_spawn,
                self.next_alien_spawn == gm.next_alien_spawn,
                self.next_black_hole_spawn == gm.next_black_hole_spawn,
                self.player == gm.player,
                self.particles == gm.particles,
                self.bullets == gm.bullets,
                self.aliens == gm.aliens,
                self.black_holes == gm.black_holes,
                g0.w == gm.w && g0.h == gm.h,
                score_frame(g0, gm),
            decreases keep@.len(),
        {
            let ghost i = nk - keep@.len();
            let mut a = keep.remove(0);
            proof {
                assert(a == keepv[i]);
                assert(keep@ =~= keepv.subrange(i + 1, nk));
            }
            let ghost apre = a;
            a.tick(dt, self.w, self.h);
            proof {
                assert(a == asteroid_ticked(apre, dt, g0.w as int, g0.h as int));
            }
            self.asteroids.push(a);
        }
        proof {
            assert(keepv.subrange(0, nk) =~= keepv);
            assert(ast_rel(g0, *self, dt, now));
        }
    }

    /// Whether any asteroid's wrapped hitbox currently overlaps the player's.
    fn player_hit_by_asteroid(&self) -> (hit: bool)
        requires
            game_wf(*self),
        ensures
            hit == asteroid_threat(*self),
    {
        let hb = self.player.get_hitbox();
        proof {
            assert(hb@ =~= Self::player_hitbox_seq(self.player));
        }
        let n = self.asteroids.len();
        let mut i: usize = 0;
        while i < n
            invariant
                game_wf(*self),
                n == self.asteroids@.len(),
                0 <= i <= n,
                hb@ == Self::player_hitbox_seq(self.player),
                hb@.len() == 4,
                crate::geom::poly_ok(hb@),
                forall|m: int, k: int|
                    0 <= m < i && 0 <= k < 9 ==> !crate::geom::polys_intersect(
                        #[trigger] Self::asteroid_hitbox_seq(
                            self.asteroids@[m],
                            self.w as int,
                            self.h as int,
                            k,
                        ),
                        Self::player_hitbox_seq(self.player),
                    ),
            decreases n - i,
        {
            let boxes = self.asteroids[i].get_hitboxes(self.w, self.h);
            proof {
                assert(forall|k: int|
                    0 <= k < 9 ==> (#[trigger] boxes@[k])@ =~= Self::asteroid_hitbox_seq(
                        self.asteroids@[i as int],
                        self.w as int,
                        self.h as int,
                        k,
                    ));
            }
            let found = wrap::hitboxes_intersect_poly(&boxes, &hb);
            if found {
                return true;
            }
            proof {
                assert forall|k: int| 0 <= k < 9 implies !crate::geom::polys_intersect(
                    #[trigger] Self::asteroid_hitbox_seq(
                        self.asteroids@[i as int],
                        self.w as int,
                        self.h as int,
                        k,
                    ),
                    Self::player_hitbox_seq(self.player),
                ) by {
                    assert(boxes@[k]@ =~= Self::asteroid_hitbox_seq(
                        self.asteroids@[i as int],
                        self.w as int,
                        self.h as int,
                        k,
                    ));
                    assert(!crate::geom::polys_intersect(boxes@[k]@, hb@));
                }
            }
            i += 1;
        }
        false
    }

    /// The wrapped hitbox `k` of an asteroid, as a sequence.
    pub open spec fn asteroid_hitbox_seq(a: Asteroid, w: int, h: int, k: int) -> Seq<(i64, i64)> {
        Seq::new(
            a.shape@.len(),
            |i: int| wrap::hitbox_point(a.shape@, a.x as int, a.y as int, w, h, k, i),
        )
    }

    /// The bullet-versus-alien pass: each alien swept by a live bullet's
    /// trail is destroyed — scoring its strategy's points, spending that
    /// bullet, leaving an explosion — and the survivors then advance,
    /// possibly firing; their shots join the world's bullets.
    #[verifier::rlimit(100)]
    fn alien_pass(&mut self, dt: u64, now: u64)
        requires
            0 < dt <= MAX_DT,
            now <= MAX_NOW,
            game_wf(*old(self)),
        ensures
            alien_rel(*old(self), *final(self), dt, now),
            game_wf(*final(self)),
            final(self).w == old(self).w,
            final(self).h == old(self).h,
            final(self).state == old(self).state,
            final(self).paused == old(self).paused,
            final(self).space_released == old(self).space_released,
            final(self).score >= old(self).score,
            final(self).lives >= old(self).lives,
            final(self).pb == old(self).pb,
            final(self).next_asteroid_spawn == old(self).next_asteroid_spawn,
            final(self).next_alien_spawn == old(self).next_alien_spawn,
            final(self).next_black_hole_spawn == old(self).next_black_hole_spawn,
            final(self).player == old(self).player,
            final(self).asteroids == old(self).asteroids,
            final(self).black_holes == old(self).black_holes,
    {
        let ghost g0 = *old(self);
        let mut olds: Vec<Alien> = Vec::new();
        core::mem::swap(&mut olds, &mut self.aliens);
        let mut keep: Vec<Alien> = Vec::new();
        let ghost n = g0.aliens@.len() as int;
        proof {
            assert(g0.aliens@.subrange(0, 0) =~= Seq::<Alien>::empty());
            assert((Game { aliens: g0.aliens, ..*self }) == g0);
        }
        while olds.len() > 0
            invariant
                0 < dt <= MAX_DT,
                now <= MAX_NOW,
                game_wf(g0),
                game_wf(*self),
                g0 == *old(self),
                n == g0.aliens@.len(),
                olds@.len() <= n,
                olds@ == g0.aliens@.subrange(n - olds@.len(), n),
                self.aliens@.len() == 0,
                alien_steps(
                    g0.aliens@.subrange(0, n - olds@.len()),
                    g0,
                    (Game { aliens: g0.aliens, ..*self }),
                    keep@,
                    dt,
                    now,
                ),
                forall|i: int|
                    0 <= i < keep@.len() ==> alien_wf(#[trigger] keep@[i], self.w as int, self.h as int),
                self.w == g0.w,
                self.h == g0.h,
                self.score >= g0.score,
                self.lives >= g0.lives,
                self.pb == g0.pb,
                self.state == g0.state,
                self.paused == g0.paused,
                self.space_released == g0.space_released,
                self.next_asteroid_spawn == g0.next_asteroid_spawn,
                self.next_alien_spawn == g0.next_alien_spawn,
                self.next_black_hole_spawn == g0.next_black_hole_spawn,
                self.player == g0.player,
                self.asteroids == g0.asteroids,
                self.black_holes == g0.black_holes,
            decreases olds@.len(),
        {
            let ghost k = n - olds@.len();
            let ghost gpre = Game { aliens: g0.aliens, ..*self };
            let ghost keep_pre = keep@;
            let a = olds.remove(0);
            proof {
                assert(a == g0.aliens@[k]);
                assert(olds@ =~= g0.aliens@.subrange(k + 1, n));
                assert(alien_wf(a, self.w as int, self.h as int));
            }
            let hitboxes = a.get_hitboxes(self.w, self.h);
            proof {
                assert(forall|kk: int|
                    0 <= kk < 9 ==> (#[trigger] hitboxes@[kk])@ =~= alien_hitbox_seq(
                        a,
                        self.w as int,
                        self.h as int,
                        kk,
                    ));
            }
            let ghost bs = self.bullets@;
            let n_b = self.bullets.len();
            let mut fidx: usize = n_b;
            let mut j: usize = 0;
            while j < n_b
                invariant
                    0 < dt <= MAX_DT,
                    game_wf(*self),
                    bs == self.bullets@,
                    n_b == bs.len(),
                    0 <= j <= n_b,
                    fidx as int <= n_b as int,
                    alien_wf(a, self.w as int, self.h as int),
                    hitboxes@.len() == 9,
                    forall|kk: int| 0 <= kk < 9 ==> (#[trigger] hitboxes@[kk])@.len() >= 3,
                    forall|kk: int| 0 <= kk < 9 ==> crate::geom::poly_ok((#[trigger] hitboxes@[kk])@),
                    forall|kk: int|
                        0 <= kk < 9 ==> (#[trigger] hitboxes@[kk])@ == alien_hitbox_seq(
                            a,
                            self.w as int,
                            self.h as int,
                            kk,
                        ),
                    fidx as int == n_b as int ==> (forall|m: int|
                        0 <= m < j ==> !bullet_sweeps_alien(
                            #[trigger] bs[m],
                            a,
                            self.w as int,
                            self.h as int,
                            dt,
                        )),
                    (fidx as int) < n_b as int ==> bullet_sweeps_alien(
                        bs[fidx as int],
                        a,
                        self.w as int,
                        self.h as int,
                        dt,
                    ) && (forall|m: int|
                        0 <= m < fidx as int ==> !bullet_sweeps_alien(
                            #[trigger] bs[m],
                            a,
                            self.w as int,
                            self.h as int,
                            dt,
                        )),
                    (fidx as int) < n_b as int ==> j as int == n_b as int,
                decreases n_b - j,
            {
                let dead = self.bullets[j].to_die;
                if !dead {
                    let trail = self.bullets[j].get_physics_trail(dt);
                    proof {
                        assert(trail@ =~= trail_seq(bs[j as int], dt));
                    }
                    let found = wrap::hitboxes_intersect_poly(&hitboxes, &trail);
                    if found {
                        proof {
                            let kk = choose|kk: int|
                                0 <= kk < hitboxes@.len() && crate::geom::polys_intersect(
                                    (#[trigger] hitboxes@[kk])@,
                                    trail@,
                                );
                            assert(crate::geom::polys_intersect(
                                alien_hitbox_seq(a, self.w as int, self.h as int, kk),
                                trail_seq(bs[j as int], dt),
                            ));
                            assert(bullet_sweeps_alien(
                                bs[j as int],
                                a,
                                self.w as int,
                                self.h as int,
                                dt,
                            ));
                        }
                        fidx = j;
                        j = n_b;
                    } else {
                        proof {
                            assert forall|kk: int| 0 <= kk < 9 implies !crate::geom::polys_intersect(
                                #[trigger] alien_hitbox_seq(a, self.w as int, self.h as int, kk),
                                trail_seq(bs[j as int], dt),
                            ) by {
                                assert(!crate::geom::polys_intersect(hitboxes@[kk]@, trail@));
                            }
                            assert(!bullet_sweeps_alien(
                                bs[j as int],
                                a,
                                self.w as int,
                                self.h as int,
                                dt,
                            ));
                        }
                        j += 1;
                    }
                } else {
                    proof {
                        assert(!bullet_sweeps_alien(
                            bs[j as int],
                            a,
                            self.w as int,
                            self.h as int,
                            dt,
                        ));
                    }
                    j += 1;
                }
            }
            if fidx < n_b {
                proof {
                    lemma_first_alien_sweeper_at(
                        bs,
                        a,
                        self.w as int,
                        self.h as int,
                        dt,
                        0,
                        fidx as int,
                    );
                }
                self.mark_bullet_dead(fidx);
                let pts = match a.get_type() {
                    crate::alien::ShootingType::Random => ALIEN_RANDOM_POINTS,
                    crate::alien::ShootingType::Current => ALIEN_CURRENT_POINTS,
                    crate::alien::ShootingType::Future => ALIEN_FUTURE_POINTS,
                };
                proof {
                    assert(pts == strategy_points(a.shooting_type));
                }
                self.award_points(pts);
                let mut expl = Particle::generate_explosion_particles(a.get_x(), a.get_y(), now);
                proof {
                    assert(forall|i: int|
                        0 <= i < expl@.len() ==> particle_wf(
                            #[trigger] expl@[i],
                            self.w as int,
                            self.h as int,
                        ));
                }
                let ghost parts_pre = self.particles@;
                self.particles.append(&mut expl);
                proof {
                    assert(self.particles@.subrange(0, parts_pre.len() as int) =~= parts_pre);
                }
            } else {
                proof {
                    lemma_first_alien_sweeper_none(bs, a, self.w as int, self.h as int, dt, 0);
                }
                keep.push(a);
            }
            proof {
                let gnow = Game { aliens: g0.aliens, ..*self };
                let fresh_kept = keep@.subrange(keep_pre.len() as int, keep@.len() as int);
                assert(keep@ =~= keep_pre + fresh_kept);
                if (fidx as int) < n_b as int {
                    assert(first_alien_sweeper(bs, a, g0.w as int, g0.h as int, dt, 0)
                        == fidx as int);
                    assert(fresh_kept =~= Seq::<Alien>::empty());
                    assert(award_rel(gpre, gnow, strategy_points(a.shooting_type) as int));
                } else {
                    assert(fresh_kept =~= seq![a]);
                }
                assert(alien_hit_step(gpre, gnow, a, fresh_kept, dt, now));
                lemma_alien_steps_extend(
                    g0.aliens@.subrange(0, k),
                    g0,
                    gpre,
                    keep_pre,
                    a,
                    gnow,
                    fresh_kept,
                    dt,
                    now,
                );
                assert(g0.aliens@.subrange(0, k).push(a) =~= g0.aliens@.subrange(0, k + 1));
                assert(keep@ == keep_pre + fresh_kept);
                assert(alien_steps(g0.aliens@.subrange(0, k + 1), g0, gnow, keep@, dt, now));
            }
        }
        let ghost gm = Game { aliens: g0.aliens, ..*self };
        let ghost keepv = keep@;
        proof {
            assert(g0.aliens@.subrange(0, n) =~= g0.aliens@);
            assert(alien_steps(g0.aliens@, g0, gm, keepv, dt, now));
            assert(keepv.subrange(0, 0) =~= Seq::<Alien>::empty());
            assert(alien_post(keepv.subrange(0, 0), gm, *self, dt, now));
        }
        let ghost nk = keepv.len() as int;
        while keep.len() > 0
            invariant
                0 < dt <= MAX_DT,
                now <= MAX_NOW,
                game_wf(*self),
                nk == keepv.len(),
                keep@.len() <= nk,
                keep@ == keepv.subrange(nk - keep@.len(), nk),
                alien_post(keepv.subrange(0, nk - keep@.len()), gm, *self, dt, now),
                forall|i: int|
                    0 <= i < nk ==> alien_wf(#[trigger] keepv[i], self.w as int, self.h as int),
                self.w == gm.w,
                self.h == gm.h,
                score_frame(g0, gm),
                g0.w == gm.w && g0.h == gm.h,
                self.score >= g0.score,
                self.lives >= g0.lives,
                self.pb == g0.pb,
                self.state == g0.state,
                self.paused == g0.paused,
                self.space_released == g0.space_released,
                self.next_asteroid_spawn == g0.next_asteroid_spawn,
                self.next_alien_spawn == g0.next_alien_spawn,
                self.next_black_hole_spawn == g0.next_black_hole_spawn,
                self.player == g0.player,
                self.asteroids == g0.asteroids,
                self.black_holes == g0.black_holes,
            decreases keep@.len(),
        {
            let ghost i = nk - keep@.len();
            let ghost gpre2 = *self;
            let mut a = keep.remove(0);
            proof {
                assert(a == keepv[i]);
                assert(keep@ =~= keepv.subrange(i + 1, nk));
            }
            a.tick(dt, now, self.score, self.player.get_pos_and_vel(), self.w, self.h);
            match a.get_bullet() {
                Some(b) => {
                    let ghost bl_pre = self.bullets@;
                    self.bullets.push(b);
                    proof {
                        assert(self.bullets@.subrange(0, bl_pre.len() as int) =~= bl_pre);
                    }
                },
                None => {},
            }
            let ghost al_pre = self.aliens@;
            self.aliens.push(a);
            proof {
                assert(self.aliens@.subrange(0, al_pre.len() as int) =~= al_pre);
                assert(self.aliens@.last() == a);
                assert(alien_move_step(gpre2, *self, keepv[i], dt, now));
                lemma_alien_post_extend(
                    keepv.subrange(0, i),
                    gm,
                    gpre2,
                    keepv[i],
                    *self,
                    dt,
                    now,
                );
                assert(keepv.subrange(0, i).push(keepv[i]) =~= keepv.subrange(0, i + 1));
                assert(alien_post(keepv.subrange(0, i + 1), gm, *self, dt, now));
            }
        }
        proof {
            assert(keepv.subrange(0, nk) =~= keepv);
            assert(pass_link(gm, keepv, keepv));
            assert(alien_rel(g0, *self, dt, now));
        }
    }

    /// The gravity-well pass: fully shrunk wells are dropped, the rest
    /// advance in place and each pulls the player.
    fn black_hole_pass(&mut self, dt: u64, now: u64)
        requires
            0 < dt <= MAX_DT,
            now <= MAX_NOW,
            game_wf(*old(self)),
        ensures
            bh_rel(*old(self), *final(self), dt, now),
            game_wf(*final(self)),
            final(self).w == old(self).w,
            final(self).h == old(self).h,
            final(self).state == old(self).state,
            final(self).paused == old(self).paused,
            final(self).space_released == old(self).space_released,
            final(self).score == old(self).score,
            final(self).lives == old(self).lives,
            final(self).pb == old(self).pb,
            final(self).next_life_points == old(self).next_life_points,
            final(self).next_asteroid_spawn == old(self).next_asteroid_spawn,
            final(self).next_alien_spawn == old(self).next_alien_spawn,
            final(self).next_black_hole_spawn == old(self).next_black_hole_spawn,
            final(self).particles == old(self).particles,
            final(self).bullets == old(self).bullets,
            final(self).asteroids == old(self).asteroids,
            final(self).aliens == old(self).aliens,
            final(self).player.x == old(self).player.x,
            final(self).player.y == old(self).player.y,
    {
        let ghost g0 = *old(self);
        let mut olds: Vec<BlackHole> = Vec::new();
        core::mem::swap(&mut olds, &mut self.black_holes);
        let ghost n = g0.black_holes@.len() as int;
        proof {
            assert(g0.black_holes@.subrange(0, 0) =~= Seq::<BlackHole>::empty());
            assert(bh_steps(g0.black_holes@.subrange(0, 0), g0, *self, dt, now));
        }
        while olds.len() > 0
            invariant
                0 < dt <= MAX_DT,
                now <= MAX_NOW,
                game_wf(*self),
                game_wf(g0),
                g0 == *old(self),
                n == g0.black_holes@.len(),
                olds@.len() <= n,
                olds@ == g0.black_holes@.subrange(n - olds@.len(), n),
                bh_steps(g0.black_holes@.subrange(0, n - olds@.len()), g0, *self, dt, now),
                self.w == g0.w,
                self.h == g0.h,
                self.state == g0.state,
                self.paused == g0.paused,
                self.space_released == g0.space_released,
                self.score == g0.score,
                self.lives == g0.lives,
                self.pb == g0.pb,
                self.next_life_points == g0.next_life_points,
                self.next_asteroid_spawn == g0.next_asteroid_spawn,
                self.next_alien_spawn == g0.next_alien_spawn,
                self.next_black_hole_spawn == g0.next_black_hole_spawn,
                self.particles == g0.particles,
                self.bullets == g0.bullets,
                self.asteroids == g0.asteroids,
                self.aliens == g0.aliens,
                self.player.x == g0.player.x,
                self.player.y == g0.player.y,
                self.player.angle == g0.player.angle,
                self.player.left == g0.player.left,
                self.player.right == g0.player.right,
                self.player.up == g0.player.up,
                self.player.particles_to_spawn == g0.player.particles_to_spawn,
                self.player.last_thrust_particle == g0.player.last_thrust_particle,
            decreases olds@.len(),
        {
            let ghost k = n - olds@.len();
            let ghost gpre = *self;
            let mut b = olds.remove(0);
            proof {
                assert(b == g0.black_holes@[k]);
                assert(olds@ =~= g0.black_holes@.subrange(k + 1, n));
                assert(black_hole_wf(b, self.w as int, self.h as int));
            }
            if b.is_alive() {
                b.tick(dt, now);
                let f = b.get_force(self.player.get_x(), self.player.get_y(), dt);
                self.player.apply_force(f.0, f.1);
                let ghost bh_pre = self.black_holes@;
                self.black_holes.push(b);
                proof {
                    assert(self.black_holes@.subrange(0, bh_pre.len() as int) =~= bh_pre);
                }
            }
            proof {
                assert(bh_move_step(gpre, *self, g0.black_holes@[k], dt, now));
                lemma_bh_steps_extend(
                    g0.black_holes@.subrange(0, k),
                    g0,
                    gpre,
                    g0.black_holes@[k],
                    *self,
                    dt,
                    now,
                );
                assert(g0.black_holes@.subrange(0, k).push(g0.black_holes@[k])
                    =~= g0.black_holes@.subrange(0, k + 1));
                assert(bh_steps(g0.black_holes@.subrange(0, k + 1), g0, *self, dt, now));
            }
        }
        proof {
            assert(g0.black_holes@.subrange(0, n) =~= g0.black_holes@);
        }
    }

    /// One frame of the world, in phases: hazard spawns; the player's move
    /// with particle upkeep; death by an alien bullet; bullet pruning and
    /// movement; the asteroid collision pass; death by asteroid overlap; the
    /// alien collision pass and alien fire; the gravity wells. Returns
    /// whether a life was lost and, with it, a score the caller must persist
    /// as the new high score. A life is lost exactly when an alien bullet
    /// sits in the player's hitbox after the move, or an asteroid's wrapped
    /// hitbox overlaps the player's after the asteroid pass; the death reset
    /// then ends the frame.
    pub fn tick_game(&mut self, dt: u64, now: u64) -> (r: (bool, Option<u64>))
        requires
            0 < dt <= MAX_DT,
            now <= MAX_NOW,
            game_wf(*old(self)),
        ensures
            game_wf(*final(self)),
            final(self).w == old(self).w,
            final(self).h == old(self).h,
            final(self).state == old(self).state,
            final(self).paused == old(self).paused,
            exists|g1: Game, g2: Game|
                #![trigger frame_link(g1, g2, g2)]
                spawn_rel(*old(self), g1, now) && move_rel(g1, g2, dt, now) && (if bullet_threat(
                    g2,
                ) {
                    r.0 && died_rel(g2, *final(self), r.1)
                } else {
                    exists|g3: Game, g4: Game, g5: Game|
                        #![trigger frame_link(g3, g4, g5)]
                        prune_rel(g2, g3, now) && tickb_rel(g3, g4, dt, now) && ast_rel(
                            g4,
                            g5,
                            dt,
                            now,
                        ) && (if asteroid_threat(g5) {
                            r.0 && died_rel(g5, *final(self), r.1)
                        } else {
                            exists|g6: Game|
                                #![trigger frame_link(g6, g6, g6)]
                                alien_rel(g5, g6, dt, now) && bh_rel(g6, *final(self), dt, now)
                                    && !r.0 && r.1 is None
                        })
                }),
            !r.0 ==> final(self).score >= old(self).score && final(self).lives >= old(self).lives
                && final(self).pb == old(self).pb && r.1 is None,
            r.0 ==> ({
                &&& final(self).player.x == old(self).w / 2
                &&& final(self).player.y == old(self).h / 2
                &&& final(self).player.vx == 0
                &&& final(self).player.vy == 0
                &&& final(self).particles@.len() == 0
                &&& final(self).bullets@.len() == 0
                &&& final(self).asteroids@.len() == 0
                &&& final(self).aliens@.len() == 0
                &&& final(self).black_holes@.len() == 0
                &&& ((final(self).lives == START_LIVES && final(self).score == 0) || (final(self).lives
                    + 1 >= old(self).lives && final(self).score >= old(self).score
                    && final(self).pb == old(self).pb))
            }),
            r.1 is Some ==> r.0 && old(self).lives <= 1 && final(self).pb == r.1->Some_0
                && r.1->Some_0 > old(self).pb,
    {
        self.spawn_hazards(now);
        let ghost s1 = *self;
        self.tick_player_and_particles(dt, now);
        let ghost s2 = *self;
        proof {
            assert(frame_link(s1, s2, s2));
        }
        if self.player_hit_by_bullet() {
            let to_save = self.die();
            proof {
                assert(bullet_threat(s2));
                assert(died_rel(s2, *self, to_save));
            }
            return (true, to_save);
        }
        self.prune_bullets(now);
        let ghost s3 = *self;
        self.tick_bullets(dt, now);
        let ghost s4 = *self;
        self.asteroid_pass(dt, now);
        let ghost s5 = *self;
        proof {
            assert(frame_link(s3, s4, s5));
        }
        if self.player_hit_by_asteroid() {
            let to_save = self.die();
            proof {
                assert(asteroid_threat(s5));
                assert(died_rel(s5, *self, to_save));
            }
            return (true, to_save);
        }
        self.alien_pass(dt, now);
        let ghost s6 = *self;
        proof {
            assert(frame_link(s6, s6, s6));
        }
        self.black_hole_pass(dt, now);
        (false, None)
    }
}

} // verus!
