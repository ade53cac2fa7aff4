//! Tuning constants of the simulation.
//!
//! Lengths are in milliunits (mu), speeds in mu per millisecond, times in
//! milliseconds, angles in units of 1/3600 turn.

use vstd::prelude::*;

verus! {

/// A full turn in angle units.
pub const FULL_TURN: u64 = 3600;
/// Half a turn in angle units.
pub const HALF_TURN: u64 = 1800;
/// A quarter turn in angle units.
pub const QUARTER_TURN: u64 = 900;
/// Scale of the fixed-point sine and cosine: `sin_fp` ranges over [-1000, 1000].
pub const TRIG_SCALE: i64 = 1000;

/// Largest playfield width or height the simulation accepts, in mu (16000 units).
pub const MAX_FIELD: i64 = 16_000_000;
/// Largest frame delta the simulation accepts, in ms.
pub const MAX_DT: u64 = 10_000;
/// Largest clock value the simulation accepts, so deadline sums stay in `u64`.
pub const MAX_NOW: u64 = 0x4000_0000_0000_0000;
/// Speed cap applied to every velocity component, in mu/ms.
pub const MAX_SPEED: i64 = 5_000;

/// Player turn rate, in angle units per ms.
pub const PLAYER_TURN_RATE: u64 = 4;
/// Player thrust, in mu/ms^2 scaled by 1000.
pub const PLAYER_ACCEL_MILLI: i64 = 1000;
/// Per-ms drag: each ms removes this many millionths of the velocity.
pub const PLAYER_DRAG_MICRO: i64 = 357;
/// Heading the player starts with and is reset to: straight up.
pub const PLAYER_START_ANGLE: u64 = 2700;
/// Lives at the start of a game.
pub const START_LIVES: u32 = 3;
/// Score needed for each extra life.
pub const POINTS_PER_LIFE: u64 = 500;

/// Bullet speed, in mu/ms.
pub const BULLET_SPEED: i64 = 1000;
/// Bullet lifetime, in ms.
pub const BULLET_LIFESPAN: u64 = 1000;

/// Shortest and longest particle lifetime, in ms.
pub const PARTICLE_MIN_LIFESPAN: u64 = 500;
pub const PARTICLE_MAX_LIFESPAN: u64 = 2000;

/// Thrust trail: target emission rate, per second.
pub const THRUST_PPS: u64 = 10;
/// Thrust trail: exhaust speed range, mu/ms.
pub const THRUST_VEL_MIN: u64 = 300;
pub const THRUST_VEL_MAX: u64 = 500;
/// Thrust trail: random angular scatter, in angle units to each side.
pub const THRUST_ANGLE_OFFSET: u64 = 286;

/// Bullet trail: target emission rate, per second.
pub const TRAIL_PPS: u64 = 20;
/// Bullet trail: backwards exhaust, in thousandths of the bullet's speed.
pub const TRAIL_VEL_MIN: u64 = 100;
pub const TRAIL_VEL_MAX: u64 = 200;
/// Bullet trail: random per-component scatter, mu/ms to each side.
pub const TRAIL_SCATTER: i64 = 50;

/// Explosion burst: particle count range and speed range.
pub const EXPLOSION_COUNT_MIN: u64 = 10;
pub const EXPLOSION_COUNT_MAX: u64 = 20;
pub const EXPLOSION_VEL_MIN: u64 = 50;
pub const EXPLOSION_VEL_MAX: u64 = 300;

/// Asteroids below this radius are removed without splitting, in mu.
pub const ASTEROID_MIN_RADIUS: i64 = 20_000;
/// Radius range of freshly spawned asteroids, in mu.
pub const ASTEROID_SPAWN_RADIUS_MIN: i64 = 50_000;
pub const ASTEROID_SPAWN_RADIUS_MAX: i64 = 100_000;
/// Vertex radii are jittered by up to this many thousandths of the radius.
pub const ASTEROID_JITTER_MILLI: i64 = 700;
/// One shape vertex per this many mu of radius (at least three).
pub const ASTEROID_MU_PER_VERTEX: i64 = 10_000;
/// Asteroid speed range, mu/ms.
pub const ASTEROID_VEL_MIN: u64 = 10;
pub const ASTEROID_VEL_MAX: u64 = 50;
/// Spawn placement: candidate budget and target squared distance from the player.
pub const ASTEROID_MAX_SPAWN_ATTEMPTS: u64 = 10;
pub const ASTEROID_MIN_SPAWN_DIST_SQ: i64 = 250_000_000_000;
/// Destroying an asteroid scores this many points divided by its radius in mu.
pub const ASTEROID_SCORE_PER_RADIUS: u64 = 1_000_000;

/// Distance from an alien's centre to its muzzle, in mu.
pub const ALIEN_SHOOT_RADIUS: i64 = 30_000;
/// At most this many aliens live at once.
pub const MAX_ALIENS: usize = 3;
/// Score thresholds that unlock each targeting strategy.
pub const ALIEN_RANDOM_MIN_POINTS: u64 = 10;
pub const ALIEN_CURRENT_MIN_POINTS: u64 = 50;
pub const ALIEN_FUTURE_MIN_POINTS: u64 = 150;
/// Points awarded for destroying an alien of each strategy.
pub const ALIEN_RANDOM_POINTS: u64 = 10;
pub const ALIEN_CURRENT_POINTS: u64 = 20;
pub const ALIEN_FUTURE_POINTS: u64 = 50;
/// Firing cadence: milli-shots per second per point of score.
pub const ALIEN_RANDOM_RATE_MILLI: u64 = 10;
pub const ALIEN_CURRENT_RATE_MILLI: u64 = 15;
pub const ALIEN_FUTURE_RATE_MILLI: u64 = 20;
/// Alien speed ranges, mu/ms.
pub const ALIEN_RANDOM_VEL_MIN: u64 = 50;
pub const ALIEN_RANDOM_VEL_MAX: u64 = 100;
pub const ALIEN_CURRENT_VEL_MIN: u64 = 80;
pub const ALIEN_CURRENT_VEL_MAX: u64 = 160;
pub const ALIEN_FUTURE_VEL_MIN: u64 = 120;
pub const ALIEN_FUTURE_VEL_MAX: u64 = 240;
/// Delay before a freshly spawned alien's first shot, in ms.
pub const ALIEN_FIRST_SHOT_DELAY: u64 = 1000;
/// The intercept solver never extrapolates further than this, in ms.
pub const INTERCEPT_MAX_TIME: i64 = 100_000;

/// Score needed before gravity wells may appear.
pub const BLACK_HOLE_MIN_POINTS: u64 = 200;
/// Full radius range of a well, in mu.
pub const BLACK_HOLE_MAX_RADIUS_MIN: i64 = 100_000;
pub const BLACK_HOLE_MAX_RADIUS_MAX: i64 = 300_000;
/// How long a well holds its full radius, in ms.
pub const BLACK_HOLE_HOLD_MIN: u64 = 3_000;
pub const BLACK_HOLE_HOLD_MAX: u64 = 8_000;
/// Radius growth and shrink rates, mu/ms.
pub const BLACK_HOLE_GROWTH_RATE: i64 = 50;
pub const BLACK_HOLE_SHRINK_RATE: i64 = 50;
/// A well pulls the player within this multiple of its current radius.
pub const BLACK_HOLE_RANGE_FAC: i64 = 3;
/// Strength of the inverse-square pull.
pub const BLACK_HOLE_FORCE_FAC: i64 = 200_000;
/// Visual rotation rate of a well, angle units per ms.
pub const BLACK_HOLE_ROT_RATE: u64 = 1;

} // verus!
